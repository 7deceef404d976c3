use dipsniper::events::{buy_done_reply, socket_action, token_info_reply, SocketAction, SocketMessage};
use dipsniper::trading::BuyMessage;

#[test]
fn sell_and_update_are_acknowledged() {
    match socket_action(SocketMessage::Sell { percentage_bits: 50.0f64.to_bits(), user_id: 1 }) {
        SocketAction::Reply(s) => assert_eq!(s, "Sell order received"),
        _ => panic!("expected a reply"),
    }
    match socket_action(SocketMessage::UpdateTrade { user_id: 1 }) {
        SocketAction::Reply(s) => assert_eq!(s, "Update trade request received "),
        _ => panic!("expected a reply"),
    }
}

#[test]
fn buy_requests_are_run() {
    let m = BuyMessage {
        pair_address: "p".to_string(),
        token_in: "a".to_string(),
        token_out: "b".to_string(),
        amount: "1".to_string(),
        wallets: vec![],
        chain_id: 8453,
        takeprofit: 1,
        stoploss: 2,
        trail: None,
        mev: None,
    };
    match socket_action(SocketMessage::Buy { message: m, user_id: 42 }) {
        SocketAction::Buy { message, user_id } => {
            assert_eq!(user_id, 42);
            assert_eq!(message.chain_id, 8453);
            assert_eq!(message.amount, "1");
        }
        _ => panic!("expected a buy"),
    }
    assert_eq!(buy_done_reply(), "Buy order executed successfully");
}

#[test]
fn token_info_needs_a_wallet() {
    assert_eq!(token_info_reply(0), "No wallets found. Please add a wallet first.");
    assert_eq!(token_info_reply(2), "Token info retrieved successfully");
}
