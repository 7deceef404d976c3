use dipsniper::monitor::{ActiveTrade, TradeMonitor, TrailBits, U256};
use dipsniper::trading::record_buy;
use dipsniper::wallet::{convertToAddress, Address};

fn addr(last: u8) -> Address {
    let mut bytes = [0u8; 20];
    bytes[19] = last;
    Address { bytes }
}

fn trade(token: u8, chain_id: u64, amount: u128) -> ActiveTrade {
    ActiveTrade {
        pair: addr(100),
        token_in: addr(200),
        token_out: addr(token),
        amount: U256::from_u128(amount),
        entry_price: U256::zero(),
        stop_loss: 10,
        take_profit: 50,
        trail: None,
        walletPk: vec!["pk".to_string()],
        chain_id,
    }
}

#[test]
fn u256_limbs() {
    let x = U256::from_u128((7u128 << 64) | 9);
    assert_eq!(x.limbs, [9, 7, 0, 0]);
    assert_eq!(U256::zero().limbs, [0, 0, 0, 0]);
}

#[test]
fn empty_monitor_knows_nothing() {
    let m = TradeMonitor::new();
    assert!(m.get_trades_for_token(&addr(1)).is_none());
    assert!(m.get_active_tokens_for_chain(1).is_none());
}

#[test]
fn added_trades_are_indexed_by_token_and_chain() {
    let mut m = TradeMonitor::new();
    m.add_trade(trade(1, 1, 10));
    m.add_trade(trade(2, 1, 20));
    m.add_trade(trade(1, 1, 30));
    m.add_trade(trade(3, 56, 40));
    let t1 = m.get_trades_for_token(&addr(1)).unwrap();
    assert_eq!(t1.len(), 2);
    assert_eq!(t1[0].amount.limbs[0], 10);
    assert_eq!(t1[1].amount.limbs[0], 30);
    assert_eq!(m.get_trades_for_token(&addr(2)).unwrap().len(), 1);
    let c1 = m.get_active_tokens_for_chain(1).unwrap();
    assert_eq!(c1.clone(), vec![addr(1), addr(2)]);
    assert_eq!(m.get_active_tokens_for_chain(56).unwrap().clone(), vec![addr(3)]);
    assert!(m.get_active_tokens_for_chain(8453).is_none());
}

#[test]
fn same_token_on_two_chains() {
    let mut m = TradeMonitor::new();
    let mut t = trade(9, 1, 1);
    t.trail = Some(TrailBits {
        trailing_stop_loss: 5.0f32.to_bits(),
        trailing_stop_loss_percentage: 50.0f32.to_bits(),
        trailing_take_profit: 0,
        trailing_take_profit_percentage: 0,
    });
    m.add_trade(t);
    m.add_trade(trade(9, 10, 2));
    assert_eq!(m.get_trades_for_token(&addr(9)).unwrap().len(), 2);
    assert_eq!(m.get_active_tokens_for_chain(1).unwrap().len(), 1);
    assert_eq!(m.get_active_tokens_for_chain(10).unwrap().len(), 1);
    let first = &m.get_trades_for_token(&addr(9)).unwrap()[0];
    assert_eq!(f32::from_bits(first.trail.unwrap().trailing_stop_loss), 5.0);
}

#[test]
fn record_buy_needs_a_confirmed_transaction() {
    let mut m = TradeMonitor::new();
    record_buy(&mut m, trade(4, 1, 1), 0);
    assert!(m.get_trades_for_token(&addr(4)).is_none());
    record_buy(&mut m, trade(4, 1, 1), 2);
    assert_eq!(m.get_trades_for_token(&addr(4)).unwrap().len(), 1);
    assert_eq!(m.get_active_tokens_for_chain(1).unwrap().clone(), vec![addr(4)]);
    let real = convertToAddress("0x5aAeb6053F3E94C9b9A09f33669435E7Ef1BeAed");
    let mut t = trade(0, 1, 5);
    t.token_out = real;
    record_buy(&mut m, t, 1);
    assert_eq!(m.get_trades_for_token(&real).unwrap()[0].amount.limbs[0], 5);
}
