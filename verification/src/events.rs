//! What the event socket answers: each request it receives either starts a
//! buy or is answered at once.
use crate::text::push_str;
use crate::trading::BuyMessage;
use vstd::prelude::*;
use vstd::string::*;

verus! {

/// A request on the event socket. A sell's percentage is held by the bit
/// pattern of its `f64`.
pub enum SocketMessage {
    Buy { message: BuyMessage, user_id: i64 },
    Sell { percentage_bits: u64, user_id: i64 },
    UpdateTrade { user_id: i64 },
}

/// What the socket does with a request: run a buy, or answer with a text.
pub enum SocketAction {
    Buy { message: BuyMessage, user_id: i64 },
    Reply(String),
}

/// The action for a request: a buy request is run; a sell and a trade
/// update are acknowledged.
pub fn socket_action(m: SocketMessage) -> (a: SocketAction)
    ensures
        match m {
            SocketMessage::Buy { message, user_id } => a matches SocketAction::Buy {
                message: am,
                user_id: au,
            } && am == message && au == user_id,
            SocketMessage::Sell { .. } => a matches SocketAction::Reply(s) && s@
                == "Sell order received"@,
            SocketMessage::UpdateTrade { .. } => a matches SocketAction::Reply(s) && s@
                == "Update trade request received "@,
        },
{
    match m {
        SocketMessage::Buy { message, user_id } => SocketAction::Buy { message, user_id },
        SocketMessage::Sell { .. } => {
            let mut s = String::new();
            push_str(&mut s, "Sell order received");
            SocketAction::Reply(s)
        },
        SocketMessage::UpdateTrade { .. } => {
            let mut s = String::new();
            push_str(&mut s, "Update trade request received ");
            SocketAction::Reply(s)
        },
    }
}

/// The answer to a buy request whose buy went through.
pub fn buy_done_reply() -> (s: String)
    ensures
        s@ == "Buy order executed successfully"@,
{
    let mut s = String::new();
    push_str(&mut s, "Buy order executed successfully");
    s
}

/// The answer to a token-information request, from the number of wallets the
/// user has.
pub fn token_info_reply(wallet_count: usize) -> (s: String)
    ensures
        wallet_count == 0 ==> s@ == "No wallets found. Please add a wallet first."@,
        wallet_count > 0 ==> s@ == "Token info retrieved successfully"@,
{
    let mut s = String::new();
    if wallet_count == 0 {
        push_str(&mut s, "No wallets found. Please add a wallet first.");
    } else {
        push_str(&mut s, "Token info retrieved successfully");
    }
    s
}

} // verus!
