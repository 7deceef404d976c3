//! The decisions of a buy: reading a buy request, the fee caps put on each
//! transaction, whether a bundle relay is used, and recording a buy that went
//! through.
use crate::monitor::{u256_value, ActiveTrade, TradeMonitor, TrailBits, U256};
use crate::text::{decimal, parse_u128, parse_u128_spec, push_str, IntErrorKind};
use crate::wallet::{checksum_text, convertToAddress, is_checksummed_address, parse_address, Address};
use vstd::prelude::*;
use vstd::string::*;

verus! {

/// A buy request as the event socket delivers it.
pub struct BuyMessage {
    pub pair_address: String,
    pub token_in: String,
    pub token_out: String,
    /// Amount to spend, as decimal text.
    pub amount: String,
    /// Private keys of the wallets to buy with.
    pub wallets: Vec<String>,
    pub chain_id: u64,
    pub takeprofit: u64,
    pub stoploss: u64,
    pub trail: Option<TrailBits>,
    pub mev: Option<bool>,
}

/// A buy request with its addresses and amount read.
pub struct BuyOrder {
    pub pair: Address,
    pub token_in: Address,
    pub token_out: Address,
    pub amount: U256,
    pub wallets: Vec<String>,
    pub chain_id: u64,
    pub stoploss: u64,
    pub takeprofit: u64,
    pub trail: Option<TrailBits>,
    pub mev: Option<bool>,
}

/// The addresses of a buy request are all checksummed address texts.
pub open spec fn buy_addresses_ok(m: BuyMessage) -> bool {
    &&& is_checksummed_address(m.pair_address@)
    &&& is_checksummed_address(m.token_in@)
    &&& is_checksummed_address(m.token_out@)
}

/// The error text for an amount that does not read as a number.
pub open spec fn amount_error_text(e: IntErrorKind) -> Seq<char> {
    "Invalid amount format: "@ + match e {
        IntErrorKind::Empty => "cannot parse integer from empty string"@,
        IntErrorKind::InvalidDigit => "invalid digit found in string"@,
        IntErrorKind::PosOverflow => "number too large to fit in target type"@,
    }
}

/// Reads the addresses and the amount of a buy request; an amount that is
/// not a `u128` in decimal gives the error text.
pub fn prepare_buy(m: BuyMessage) -> (r: Result<BuyOrder, String>)
    requires
        buy_addresses_ok(m),
    ensures
        match parse_u128_spec(m.amount@) {
            Ok(n) => r matches Ok(o) && {
                &&& m.pair_address@ == checksum_text(o.pair.bytes@)
                &&& m.token_in@ == checksum_text(o.token_in.bytes@)
                &&& m.token_out@ == checksum_text(o.token_out.bytes@)
                &&& u256_value(o.amount) == n
                &&& o.wallets == m.wallets
                &&& o.chain_id == m.chain_id
                &&& o.stoploss == m.stoploss
                &&& o.takeprofit == m.takeprofit
                &&& o.trail == m.trail
                &&& o.mev == m.mev
            },
            Err(e) => r matches Err(s) && s@ == amount_error_text(e),
        },
{
    let pair = convertToAddress(m.pair_address.as_str());
    let token_in = convertToAddress(m.token_in.as_str());
    let token_out = convertToAddress(m.token_out.as_str());
    match parse_u128(m.amount.as_str()) {
        Ok(n) => Ok(
            BuyOrder {
                pair,
                token_in,
                token_out,
                amount: U256::from_u128(n),
                wallets: m.wallets,
                chain_id: m.chain_id,
                stoploss: m.stoploss,
                takeprofit: m.takeprofit,
                trail: m.trail,
                mev: m.mev,
            },
        ),
        Err(e) => {
            let mut s = String::new();
            push_str(&mut s, "Invalid amount format: ");
            push_str(&mut s, e.message());
            Err(s)
        },
    }
}

/// Like `prepare_buy`, but `None` when an address of the request is not a
/// checksummed address text.
pub fn try_prepare_buy(m: BuyMessage) -> (r: Option<Result<BuyOrder, String>>)
    ensures
        r is Some <==> buy_addresses_ok(m),
        r matches Some(Err(s)) ==> parse_u128_spec(m.amount@) is Err && s@ == amount_error_text(
            parse_u128_spec(m.amount@)->Err_0,
        ),
        r matches Some(Ok(o)) ==> parse_u128_spec(m.amount@) is Ok && u256_value(o.amount)
            == parse_u128_spec(m.amount@)->Ok_0 && m.pair_address@ == checksum_text(o.pair.bytes@)
            && m.token_in@ == checksum_text(o.token_in.bytes@) && m.token_out@ == checksum_text(
            o.token_out.bytes@,
        ) && o.wallets == m.wallets && o.chain_id == m.chain_id && o.stoploss == m.stoploss
            && o.takeprofit == m.takeprofit && o.trail == m.trail && o.mev == m.mev,
{
    let ok = parse_address(m.pair_address.as_str()).is_some() && parse_address(
        m.token_in.as_str(),
    ).is_some() && parse_address(m.token_out.as_str()).is_some();
    if ok {
        Some(prepare_buy(m))
    } else {
        None
    }
}

/// The fee caps put on each buy transaction: the fee cap is 120% of the gas
/// price (rounded down), and the priority fee is twice the suggested priority
/// fee, or four times the gas price when none is suggested.
pub fn fixed_fee_caps(gas_price: u128, suggested_priority: Option<u128>) -> (r: (u128, u128))
    requires
        gas_price * 120 <= u128::MAX,
        match suggested_priority {
            Some(p) => p * 2 <= u128::MAX,
            None => gas_price * 4 <= u128::MAX,
        },
    ensures
        r.0 == gas_price * 120 / 100,
        r.1 == match suggested_priority {
            Some(p) => p * 2,
            None => gas_price * 4,
        },
{
    let fallback = gas_price * 2;
    let priority = match suggested_priority {
        Some(p) => p,
        None => fallback,
    };
    let max_fee = (gas_price * 120) / 100;
    (max_fee, priority * 2)
}

/// How a chain sends bundles: `None` when it has no relay URL; otherwise
/// whether the default relays are added too (on chain 1 only).
pub fn flashbots_relay(flashbots_url: &str, chain_id: u64) -> (r: Option<bool>)
    ensures
        r == (if flashbots_url@.len() == 0 {
            None
        } else {
            Some(chain_id == 1)
        }),
{
    if flashbots_url.is_empty() {
        None
    } else {
        Some(chain_id == 1)
    }
}

/// The error text of a buy without wallets.
pub fn check_wallets(wallets: &Vec<String>) -> (r: Result<(), String>)
    ensures
        r is Ok <==> wallets@.len() > 0,
        r matches Err(s) ==> s@ == "No wallets provided"@,
{
    if wallets.len() == 0 {
        let mut s = String::new();
        push_str(&mut s, "No wallets provided");
        Err(s)
    } else {
        Ok(())
    }
}

/// The trade to watch after a buy; its entry price is not known yet and is zero.
pub fn new_active_trade(order: BuyOrder) -> (t: ActiveTrade)
    ensures
        t.pair == order.pair,
        t.token_in == order.token_in,
        t.token_out == order.token_out,
        t.amount == order.amount,
        u256_value(t.entry_price) == 0,
        t.stop_loss == order.stoploss,
        t.take_profit == order.takeprofit,
        t.trail == order.trail,
        t.walletPk == order.wallets,
        t.chain_id == order.chain_id,
{
    ActiveTrade {
        pair: order.pair,
        token_in: order.token_in,
        token_out: order.token_out,
        amount: order.amount,
        entry_price: U256::zero(),
        stop_loss: order.stoploss,
        take_profit: order.takeprofit,
        trail: order.trail,
        walletPk: order.wallets,
        chain_id: order.chain_id,
    }
}

/// Records a buy: the trade is watched when at least one wallet's
/// transaction was confirmed, and nothing changes otherwise.
pub fn record_buy(monitor: &mut TradeMonitor, trade: ActiveTrade, confirmed: usize)
    requires
        old(monitor).wf(),
    ensures
        final(monitor).wf(),
        confirmed == 0 ==> *final(monitor) == *old(monitor),
        confirmed > 0 ==> {
            &&& final(monitor).has_token(trade.token_out.bytes@)
            &&& final(monitor).trades_of(trade.token_out.bytes@) == old(monitor).trades_of(
                trade.token_out.bytes@,
            ).push(trade)
            &&& forall|t: Seq<u8>|
                t != trade.token_out.bytes@ ==> final(monitor).has_token(t) == old(monitor).has_token(t)
                    && final(monitor).trades_of(t) == old(monitor).trades_of(t)
            &&& final(monitor).has_chain(trade.chain_id)
            &&& final(monitor).active_of(trade.chain_id) == old(monitor).active_of(
                trade.chain_id,
            ).insert(trade.token_out.bytes@)
            &&& forall|c: u64|
                c != trade.chain_id ==> final(monitor).has_chain(c) == old(monitor).has_chain(c)
                    && final(monitor).active_list(c) == old(monitor).active_list(c)
        },
{
    if confirmed > 0 {
        monitor.add_trade(trade);
    }
}

} // verus!
