use dipsniper::trading::{
    check_wallets, fixed_fee_caps, flashbots_relay, new_active_trade, prepare_buy,
    try_prepare_buy, BuyMessage,
};

const PAIR: &str = "0x5aAeb6053F3E94C9b9A09f33669435E7Ef1BeAed";
const WETH: &str = "0x7E5F4552091A69125d5DfCb7b8C2659029395Bdf";
const TOKEN: &str = "0xfB6916095ca1df60bB79Ce92cE3Ea74c37c5d359";

fn message(amount: &str) -> BuyMessage {
    BuyMessage {
        pair_address: PAIR.to_string(),
        token_in: WETH.to_string(),
        token_out: TOKEN.to_string(),
        amount: amount.to_string(),
        wallets: vec!["key1".to_string(), "key2".to_string()],
        chain_id: 1,
        takeprofit: 50,
        stoploss: 20,
        trail: None,
        mev: Some(true),
    }
}

#[test]
fn prepare_buy_reads_addresses_and_amount() {
    let o = match prepare_buy(message("1000000000000000000")) {
        Ok(o) => o,
        Err(e) => panic!("{}", e),
    };
    assert_eq!(o.pair.to_string(), PAIR);
    assert_eq!(o.token_in.to_string(), WETH);
    assert_eq!(o.token_out.to_string(), TOKEN);
    assert_eq!(o.amount.limbs, [1_000_000_000_000_000_000, 0, 0, 0]);
    assert_eq!(o.wallets, vec!["key1".to_string(), "key2".to_string()]);
    assert_eq!(o.chain_id, 1);
    assert_eq!(o.stoploss, 20);
    assert_eq!(o.takeprofit, 50);
    assert_eq!(o.mev, Some(true));
}

#[test]
fn prepare_buy_reports_bad_amounts() {
    match prepare_buy(message("12x")) {
        Err(e) => assert_eq!(e, "Invalid amount format: invalid digit found in string"),
        Ok(_) => panic!("accepted a bad amount"),
    }
    match prepare_buy(message("")) {
        Err(e) => assert_eq!(e, "Invalid amount format: cannot parse integer from empty string"),
        Ok(_) => panic!("accepted an empty amount"),
    }
    match prepare_buy(message("999999999999999999999999999999999999999999")) {
        Err(e) => assert_eq!(e, "Invalid amount format: number too large to fit in target type"),
        Ok(_) => panic!("accepted an overflowing amount"),
    }
}

#[test]
fn try_prepare_buy_refuses_unchecksummed_addresses() {
    let mut m = message("5");
    m.token_out = TOKEN.to_lowercase();
    assert!(try_prepare_buy(m).is_none());
    match try_prepare_buy(message("5")) {
        Some(Ok(o)) => assert_eq!(o.amount.limbs[0], 5),
        _ => panic!("expected an order"),
    }
}

#[test]
fn fee_caps() {
    assert_eq!(fixed_fee_caps(100, Some(7)), (120, 14));
    assert_eq!(fixed_fee_caps(100, None), (120, 400));
    assert_eq!(fixed_fee_caps(33, None), (39, 132));
    assert_eq!(fixed_fee_caps(0, Some(0)), (0, 0));
}

#[test]
fn relay_choice() {
    assert_eq!(flashbots_relay("", 1), None);
    assert_eq!(flashbots_relay("https://relay.flashbots.net", 1), Some(true));
    assert_eq!(flashbots_relay("https://relay.example", 56), Some(false));
}

#[test]
fn wallets_are_required() {
    assert_eq!(check_wallets(&vec![]), Err("No wallets provided".to_string()));
    assert_eq!(check_wallets(&vec!["k".to_string()]), Ok(()));
}

#[test]
fn active_trade_from_order() {
    let o = match prepare_buy(message("42")) {
        Ok(o) => o,
        Err(e) => panic!("{}", e),
    };
    let t = new_active_trade(o);
    assert_eq!(t.token_out.to_string(), TOKEN);
    assert_eq!(t.amount.limbs, [42, 0, 0, 0]);
    assert_eq!(t.entry_price.limbs, [0, 0, 0, 0]);
    assert_eq!(t.stop_loss, 20);
    assert_eq!(t.take_profit, 50);
    assert_eq!(t.walletPk.len(), 2);
    assert_eq!(t.chain_id, 1);
}
