use dipsniper::config::{getConfig, Network, SConfig};
use dipsniper::helper::get_token_url;

fn network(name: &str, chain_id: u64, explorer: &str) -> Network {
    Network {
        name: name.to_string(),
        rpc: format!("https://rpc.{}.example", name),
        chain_id,
        sniperca: "0x5aAeb6053F3E94C9b9A09f33669435E7Ef1BeAed".to_string(),
        ws_rpc: format!("wss://ws.{}.example", name),
        flashbots_url: String::new(),
        eip1599: true,
        explorer: explorer.to_string(),
    }
}

fn sample() -> SConfig {
    getConfig(
        "SECRET-REDACTED".to_string(),
        vec![
            ("eth".to_string(), network("ethereum", 1, "https://etherscan.io")),
            ("base".to_string(), network("base", 8453, "https://basescan.org")),
            ("bsc".to_string(), network("bsc", 56, "https://bscscan.com")),
        ],
        "sniper".to_string(),
        "dipsniper".to_string(),
        "mongodb://localhost:27017".to_string(),
    )
}

#[test]
fn getters_return_the_configured_values() {
    let c = sample();
    assert_eq!(c.getBotToken(), "SECRET-REDACTED");
    assert_eq!(c.getDataBase(), "dipsniper");
    assert_eq!(c.getDataURI(), "mongodb://localhost:27017");
    assert_eq!(c.ipc_service_name, "sniper");
}

#[test]
fn network_by_name() {
    let c = sample();
    assert_eq!(c.getNetwork("base").chain_id, 8453);
    assert_eq!(c.getNetwork("eth").name, "ethereum");
    assert_eq!(c.getNetwork("bsc").explorer, "https://bscscan.com");
}

#[test]
fn network_by_chain_id() {
    let c = sample();
    assert_eq!(c.getNetworkByChainId(56).name, "bsc");
    assert_eq!(c.getNetworkByChainId(1).name, "ethereum");
}

#[test]
fn later_network_entry_replaces_earlier() {
    let c = getConfig(
        "t".to_string(),
        vec![
            ("eth".to_string(), network("first", 1, "https://a.example")),
            ("eth".to_string(), network("second", 5, "https://b.example")),
        ],
        String::new(),
        String::new(),
        String::new(),
    );
    assert_eq!(c.networks.len(), 1);
    assert_eq!(c.getNetwork("eth").name, "second");
    assert_eq!(c.getNetworkByChainId(5).name, "second");
}

#[test]
fn chain_id_lookup_takes_first_match() {
    let c = getConfig(
        "t".to_string(),
        vec![
            ("a".to_string(), network("first", 7, "x")),
            ("b".to_string(), network("second", 7, "y")),
        ],
        String::new(),
        String::new(),
        String::new(),
    );
    assert_eq!(c.getNetworkByChainId(7).name, "first");
}

#[test]
fn token_url_joins_explorer_and_token() {
    let c = sample();
    assert_eq!(
        get_token_url(&c, "0x5aAeb6053F3E94C9b9A09f33669435E7Ef1BeAed", "eth"),
        "https://etherscan.io/token/0x5aAeb6053F3E94C9b9A09f33669435E7Ef1BeAed"
    );
    assert_eq!(get_token_url(&c, "abc", "base"), "https://basescan.org/token/abc");
}
