//! What the chat bot decides from the text it receives, and the text it
//! shows: button callbacks, replies that set a trade setting, the wallet list
//! and the list of MEV-enabled chains.
use crate::text::{
    contains_seq, decimal, i64_to_string, occurs_at, push_char, push_str, starts_with_seq,
    str_contains, str_eq, str_starts_with,
};
use vstd::prelude::*;
use vstd::string::*;

verus! {

/// What a button press asks for.
pub enum CallbackAction {
    RenameWallet(String),
    DeleteWallet(String),
    WalletsMenu,
    CreateWallet,
    ShowWallets,
    TradeSettings,
    Settings,
    EditStoploss,
    EditTakeprofit,
    ToggleTrailing,
    EditTrailingStoploss,
    EditTrailingTakeprofit,
    ToggleMultiwallet,
    EditMevSettings,
    Ignore,
}

/// The number of characters before the first `:` of `s` (all of them when there is none).
pub open spec fn colon_pos(s: Seq<char>) -> int
    decreases s.len(),
{
    if s.len() == 0 {
        0
    } else if s[0] == ':' {
        0
    } else {
        1 + colon_pos(s.drop_first())
    }
}

/// The text after the first `n` characters of `s`, up to the next `:`.
pub open spec fn field_after(s: Seq<char>, n: int) -> Seq<char> {
    s.skip(n).take(colon_pos(s.skip(n)))
}

proof fn lemma_colon_pos(s: Seq<char>)
    ensures
        0 <= colon_pos(s) <= s.len(),
        forall|j: int| 0 <= j < colon_pos(s) ==> s[j] != ':',
        colon_pos(s) < s.len() ==> s[colon_pos(s)] == ':',
    decreases s.len(),
{
    if s.len() > 0 && s[0] != ':' {
        lemma_colon_pos(s.drop_first());
        assert forall|j: int| 0 <= j < colon_pos(s) implies s[j] != ':' by {
            if j > 0 {
                assert(s[j] == s.drop_first()[j - 1]);
            }
        }
    }
}

/// The characters of `v` from position `start` up to the next `:`.
fn take_field(v: &Vec<char>, start: usize) -> (r: String)
    requires
        start <= v@.len(),
    ensures
        r@ == field_after(v@, start as int),
{
    let ghost rest = v@.skip(start as int);
    proof {
        lemma_colon_pos(rest);
    }
    let mut s = String::new();
    let mut i: usize = start;
    while i < v.len() && v[i] != ':'
        invariant
            start <= i <= v@.len(),
            rest == v@.skip(start as int),
            0 <= colon_pos(rest) <= rest.len(),
            forall|j: int| 0 <= j < colon_pos(rest) ==> rest[j] != ':',
            colon_pos(rest) < rest.len() ==> rest[colon_pos(rest)] == ':',
            i - start <= colon_pos(rest),
            s@ == rest.take(i - start),
        decreases v.len() - i,
    {
        push_char(&mut s, v[i]);
        assert(rest.take(i + 1 - start) =~= rest.take(i - start).push(v@[i as int]));
        i = i + 1;
    }
    if i < v.len() {
        assert(rest[i - start] == v@[i as int]);
    }
    assert(i - start == colon_pos(rest));
    s
}

/// The action of a button's callback data.
pub fn parse_callback(data: &str) -> (a: CallbackAction)
    ensures
        if starts_with_seq(data@, "rename_wallet:"@) {
            a matches CallbackAction::RenameWallet(w) && w@ == field_after(data@, 14)
        } else if starts_with_seq(data@, "delete_wallet:"@) {
            a matches CallbackAction::DeleteWallet(w) && w@ == field_after(data@, 14)
        } else if data@ == "wallets_menu"@ {
            a is WalletsMenu
        } else if data@ == "create_wallet"@ {
            a is CreateWallet
        } else if data@ == "show_wallets"@ {
            a is ShowWallets
        } else if data@ == "trade_settings"@ {
            a is TradeSettings
        } else if data@ == "settings"@ {
            a is Settings
        } else if data@ == "edit_stoploss"@ {
            a is EditStoploss
        } else if data@ == "edit_takeprofit"@ {
            a is EditTakeprofit
        } else if data@ == "toggle_trailing"@ {
            a is ToggleTrailing
        } else if data@ == "edit_trailing_stoploss"@ {
            a is EditTrailingStoploss
        } else if data@ == "edit_trailing_takeprofit"@ {
            a is EditTrailingTakeprofit
        } else if data@ == "toggle_multiwallet"@ {
            a is ToggleMultiwallet
        } else if data@ == "edit_mev_settings"@ {
            a is EditMevSettings
        } else {
            a is Ignore
        },
{
    if str_starts_with(data, "rename_wallet:") {
        proof {
            reveal_strlit("rename_wallet:");
        }
        let v = crate::text::chars_of(data);
        return CallbackAction::RenameWallet(take_field(&v, 14));
    }
    if str_starts_with(data, "delete_wallet:") {
        proof {
            reveal_strlit("delete_wallet:");
        }
        let v = crate::text::chars_of(data);
        return CallbackAction::DeleteWallet(take_field(&v, 14));
    }
    if str_eq(data, "wallets_menu") {
        CallbackAction::WalletsMenu
    } else if str_eq(data, "create_wallet") {
        CallbackAction::CreateWallet
    } else if str_eq(data, "show_wallets") {
        CallbackAction::ShowWallets
    } else if str_eq(data, "trade_settings") {
        CallbackAction::TradeSettings
    } else if str_eq(data, "settings") {
        CallbackAction::Settings
    } else if str_eq(data, "edit_stoploss") {
        CallbackAction::EditStoploss
    } else if str_eq(data, "edit_takeprofit") {
        CallbackAction::EditTakeprofit
    } else if str_eq(data, "toggle_trailing") {
        CallbackAction::ToggleTrailing
    } else if str_eq(data, "edit_trailing_stoploss") {
        CallbackAction::EditTrailingStoploss
    } else if str_eq(data, "edit_trailing_takeprofit") {
        CallbackAction::EditTrailingTakeprofit
    } else if str_eq(data, "toggle_multiwallet") {
        CallbackAction::ToggleMultiwallet
    } else if str_eq(data, "edit_mev_settings") {
        CallbackAction::EditMevSettings
    } else {
        CallbackAction::Ignore
    }
}

/// The trade setting that a reply to the bot's prompt sets.
#[derive(PartialEq, Eq, Debug, Clone, Copy, Structural)]
pub enum ReplyField {
    StopLoss,
    TakeProfit,
    TrailingStopLoss,
    TrailingTakeProfit,
    Other,
}

/// The setting a reply sets, from the prompt it answers: the first of
/// "stop loss percentage", "take profit percentage", "trailing stop loss
/// percentage", "trailing take profit percentage" that the prompt contains.
pub open spec fn reply_field_spec(prompt: Seq<char>) -> ReplyField {
    if contains_seq(prompt, "stop loss percentage"@) {
        ReplyField::StopLoss
    } else if contains_seq(prompt, "take profit percentage"@) {
        ReplyField::TakeProfit
    } else if contains_seq(prompt, "trailing stop loss percentage"@) {
        ReplyField::TrailingStopLoss
    } else if contains_seq(prompt, "trailing take profit percentage"@) {
        ReplyField::TrailingTakeProfit
    } else {
        ReplyField::Other
    }
}

/// The setting that a reply to `prompt` sets.
pub fn reply_field(prompt: &str) -> (f: ReplyField)
    ensures
        f == reply_field_spec(prompt@),
{
    if str_contains(prompt, "stop loss percentage") {
        ReplyField::StopLoss
    } else if str_contains(prompt, "take profit percentage") {
        ReplyField::TakeProfit
    } else if str_contains(prompt, "trailing stop loss percentage") {
        ReplyField::TrailingStopLoss
    } else if str_contains(prompt, "trailing take profit percentage") {
        ReplyField::TrailingTakeProfit
    } else {
        ReplyField::Other
    }
}

/// A reply never sets a trailing setting: a prompt naming the trailing stop
/// loss (take profit) percentage also contains the stop loss (take profit)
/// percentage phrase, which is checked first.
pub proof fn lemma_reply_never_trailing(prompt: Seq<char>)
    ensures
        reply_field_spec(prompt) != ReplyField::TrailingStopLoss,
        reply_field_spec(prompt) != ReplyField::TrailingTakeProfit,
{
    reveal_strlit("stop loss percentage");
    reveal_strlit("take profit percentage");
    reveal_strlit("trailing stop loss percentage");
    reveal_strlit("trailing take profit percentage");
    let short_sl = "stop loss percentage"@;
    let long_sl = "trailing stop loss percentage"@;
    let short_tp = "take profit percentage"@;
    let long_tp = "trailing take profit percentage"@;
    assert(short_sl.len() == 20);
    assert(long_sl.len() == 29);
    assert(short_tp.len() == 22);
    assert(long_tp.len() == 31);
    assert(long_sl.subrange(9, 29) =~= short_sl);
    assert(long_tp.subrange(9, 31) =~= short_tp);
    if contains_seq(prompt, long_sl) {
        let i = choose|i: int| occurs_at(prompt, long_sl, i);
        assert(prompt.subrange(i + 9, i + 29) =~= long_sl.subrange(9, 29));
        assert(occurs_at(prompt, short_sl, i + 9));
    }
    if contains_seq(prompt, long_tp) {
        let i = choose|i: int| occurs_at(prompt, long_tp, i);
        assert(prompt.subrange(i + 9, i + 31) =~= long_tp.subrange(9, 31));
        assert(occurs_at(prompt, short_tp, i + 9));
    }
}

/// A wallet as the wallet list shows it.
pub struct WalletLine {
    pub name: String,
    pub address: String,
}

/// One line of the wallet list.
pub open spec fn wallet_line_text(w: WalletLine) -> Seq<char> {
    "🔑 "@ + w.name@ + " ("@ + w.address@ + ")\n"@
}

/// The lines of the wallet list.
pub open spec fn wallet_lines_text(ws: Seq<WalletLine>) -> Seq<char>
    decreases ws.len(),
{
    if ws.len() == 0 {
        Seq::empty()
    } else {
        wallet_lines_text(ws.drop_last()) + wallet_line_text(ws.last())
    }
}

/// The text of the wallet list.
pub fn wallet_list_text(wallets: &Vec<WalletLine>) -> (t: String)
    ensures
        wallets@.len() == 0 ==> t@ == "Your Wallets:\n\n"@ + "No wallets found."@,
        wallets@.len() > 0 ==> t@ == "Your Wallets:\n\n"@ + wallet_lines_text(wallets@),
{
    let mut t = String::new();
    push_str(&mut t, "Your Wallets:\n\n");
    if wallets.len() == 0 {
        push_str(&mut t, "No wallets found.");
        return t;
    }
    let ghost head = t@;
    let mut i: usize = 0;
    while i < wallets.len()
        invariant
            i <= wallets@.len(),
            head == "Your Wallets:\n\n"@,
            t@ == head + wallet_lines_text(wallets@.subrange(0, i as int)),
        decreases wallets.len() - i,
    {
        let w = &wallets[i];
        push_str(&mut t, "🔑 ");
        push_str(&mut t, w.name.as_str());
        push_str(&mut t, " (");
        push_str(&mut t, w.address.as_str());
        push_str(&mut t, ")\n");
        proof {
            assert(wallets@.subrange(0, i + 1).drop_last() =~= wallets@.subrange(0, i as int));
            assert(t@ =~= head + wallet_lines_text(wallets@.subrange(0, i + 1)));
        }
        i = i + 1;
    }
    assert(wallets@.subrange(0, wallets@.len() as int) =~= wallets@);
    t
}

/// A button: its label and its callback data.
pub struct Button {
    pub label: String,
    pub data: String,
}

/// The rename and delete buttons of a wallet in the wallet list.
pub fn wallet_buttons(w: &WalletLine) -> (b: (Button, Button))
    ensures
        b.0.label@ == "✏️ Rename "@ + w.name@,
        b.0.data@ == "rename_wallet:"@ + w.address@,
        b.1.label@ == "🗑️ Delete "@ + w.name@,
        b.1.data@ == "delete_wallet:"@ + w.address@,
{
    let mut l1 = String::new();
    push_str(&mut l1, "✏️ Rename ");
    push_str(&mut l1, w.name.as_str());
    let mut d1 = String::new();
    push_str(&mut d1, "rename_wallet:");
    push_str(&mut d1, w.address.as_str());
    let mut l2 = String::new();
    push_str(&mut l2, "🗑️ Delete ");
    push_str(&mut l2, w.name.as_str());
    let mut d2 = String::new();
    push_str(&mut d2, "delete_wallet:");
    push_str(&mut d2, w.address.as_str());
    (Button { label: l1, data: d1 }, Button { label: l2, data: d2 })
}

/// The chain ids joined by ", ".
pub open spec fn joined_ids(ids: Seq<i64>) -> Seq<char>
    decreases ids.len(),
{
    if ids.len() == 0 {
        Seq::empty()
    } else if ids.len() == 1 {
        decimal(ids[0] as int)
    } else {
        joined_ids(ids.drop_last()) + ", "@ + decimal(ids.last() as int)
    }
}

/// The MEV-enabled chains as the settings screen shows them: "None", or the
/// ids joined by ", ".
pub fn mev_chains_text(ids: &Vec<i64>) -> (t: String)
    ensures
        ids@.len() == 0 ==> t@ == "None"@,
        ids@.len() > 0 ==> t@ == joined_ids(ids@),
{
    let mut t = String::new();
    if ids.len() == 0 {
        push_str(&mut t, "None");
        return t;
    }
    let mut i: usize = 0;
    while i < ids.len()
        invariant
            i <= ids@.len(),
            t@ == joined_ids(ids@.subrange(0, i as int)),
        decreases ids.len() - i,
    {
        if i > 0 {
            push_str(&mut t, ", ");
        }
        let d = i64_to_string(ids[i]);
        push_str(&mut t, d.as_str());
        proof {
            assert(ids@.subrange(0, i + 1).drop_last() =~= ids@.subrange(0, i as int));
            assert(t@ =~= joined_ids(ids@.subrange(0, i + 1)));
        }
        i = i + 1;
    }
    assert(ids@.subrange(0, ids@.len() as int) =~= ids@);
    t
}

/// The message after a setting was switched on or off.
pub fn toggled_message(setting: &str, enabled: bool) -> (t: String)
    ensures
        t@ == setting@ + " has been "@ + (if enabled {
            "enabled"@
        } else {
            "disabled"@
        }) + ". Use the back button to return to settings."@,
{
    let mut t = String::new();
    push_str(&mut t, setting);
    push_str(&mut t, " has been ");
    if enabled {
        push_str(&mut t, "enabled");
    } else {
        push_str(&mut t, "disabled");
    }
    push_str(&mut t, ". Use the back button to return to settings.");
    t
}

/// The mark that shows whether a setting is on.
pub fn flag_mark(on: bool) -> (m: &'static str)
    ensures
        m@ == (if on {
            "✅"@
        } else {
            "❌"@
        }),
{
    if on {
        "✅"
    } else {
        "❌"
    }
}

/// The trade settings screen. The percentages come as the text they are shown as.
pub open spec fn trade_settings_text_spec(
    stoploss: Seq<char>,
    takeprofit: Seq<char>,
    trailing: bool,
    trailing_stop_loss: Seq<char>,
    trailing_take_profit: Seq<char>,
    multiwallet: bool,
    mev_chains: Seq<char>,
) -> Seq<char> {
    "🛠 Trade Settings\n\nStop Loss: "@ + stoploss + "%\nTake Profit: "@ + takeprofit
        + "%\nTrailing: "@ + (if trailing {
        "✅"@
    } else {
        "❌"@
    }) + "\nTrailing Stop Loss: "@ + trailing_stop_loss + "%\nTrailing Take Profit: "@
        + trailing_take_profit + "%\nMulti-wallet: "@ + (if multiwallet {
        "✅"@
    } else {
        "❌"@
    }) + "\nMEV Enabled Chains: "@ + mev_chains + "\n\nSelect a setting to modify:"@
}

/// The text of the trade settings screen.
pub fn trade_settings_text(
    stoploss: &str,
    takeprofit: &str,
    trailing: bool,
    trailing_stop_loss: &str,
    trailing_take_profit: &str,
    multiwallet: bool,
    mev_enabled_chains: &Vec<i64>,
) -> (t: String)
    ensures
        t@ == trade_settings_text_spec(
            stoploss@,
            takeprofit@,
            trailing,
            trailing_stop_loss@,
            trailing_take_profit@,
            multiwallet,
            if mev_enabled_chains@.len() == 0 {
                "None"@
            } else {
                joined_ids(mev_enabled_chains@)
            },
        ),
{
    let chains = mev_chains_text(mev_enabled_chains);
    let mut t = String::new();
    push_str(&mut t, "🛠 Trade Settings\n\nStop Loss: ");
    push_str(&mut t, stoploss);
    push_str(&mut t, "%\nTake Profit: ");
    push_str(&mut t, takeprofit);
    push_str(&mut t, "%\nTrailing: ");
    push_str(&mut t, flag_mark(trailing));
    push_str(&mut t, "\nTrailing Stop Loss: ");
    push_str(&mut t, trailing_stop_loss);
    push_str(&mut t, "%\nTrailing Take Profit: ");
    push_str(&mut t, trailing_take_profit);
    push_str(&mut t, "%\nMulti-wallet: ");
    push_str(&mut t, flag_mark(multiwallet));
    push_str(&mut t, "\nMEV Enabled Chains: ");
    push_str(&mut t, chains.as_str());
    push_str(&mut t, "\n\nSelect a setting to modify:");
    t
}

/// The confirmation after a reply set a trade setting to the value shown as
/// `value`; `None` for a reply that sets nothing.
pub fn updated_message(field: ReplyField, value: &str) -> (m: Option<String>)
    ensures
        match field {
            ReplyField::StopLoss => m matches Some(t) && t@ == "Stop loss has been updated to "@
                + value@ + "%"@,
            ReplyField::TakeProfit => m matches Some(t) && t@ == "Take profit has been updated to "@
                + value@ + "%"@,
            ReplyField::TrailingStopLoss => m matches Some(t) && t@
                == "Trailing stop loss has been updated to "@ + value@ + "%"@,
            ReplyField::TrailingTakeProfit => m matches Some(t) && t@
                == "Trailing take profit has been updated to "@ + value@ + "%"@,
            ReplyField::Other => m is None,
        },
{
    let head = match field {
        ReplyField::StopLoss => "Stop loss has been updated to ",
        ReplyField::TakeProfit => "Take profit has been updated to ",
        ReplyField::TrailingStopLoss => "Trailing stop loss has been updated to ",
        ReplyField::TrailingTakeProfit => "Trailing take profit has been updated to ",
        ReplyField::Other => {
            return None;
        },
    };
    let mut t = String::new();
    push_str(&mut t, head);
    push_str(&mut t, value);
    push_str(&mut t, "%");
    Some(t)
}

/// The answer to a reply whose number is outside 0 to 100.
pub fn invalid_percentage_message() -> (m: String)
    ensures
        m@ == "Please enter a valid percentage between 0 and 100"@,
{
    let mut m = String::new();
    push_str(&mut m, "Please enter a valid percentage between 0 and 100");
    m
}

/// Button `b` shows `label` and sends `data`.
pub open spec fn button_is(b: Button, label: Seq<char>, data: Seq<char>) -> bool {
    b.label@ == label && b.data@ == data
}

fn button(label: &str, data: &str) -> (b: Button)
    ensures
        button_is(b, label@, data@),
{
    Button { label: label.to_owned(), data: data.to_owned() }
}

fn labelled(head: &str, value: &str, tail: &str) -> (t: String)
    ensures
        t@ == head@ + value@ + tail@,
{
    let mut t = String::new();
    push_str(&mut t, head);
    push_str(&mut t, value);
    push_str(&mut t, tail);
    t
}

/// The buttons of the trade settings screen, row by row. The percentages come
/// as the text they are shown as.
pub fn trade_settings_keyboard(
    stoploss: &str,
    takeprofit: &str,
    trailing: bool,
    trailing_stop_loss: &str,
    trailing_take_profit: &str,
    multiwallet: bool,
) -> (k: Vec<Vec<Button>>)
    ensures
        k@.len() == 5,
        k@[0]@.len() == 1,
        button_is(k@[0]@[0], "⬅️ Back to Settings"@, "settings"@),
        k@[1]@.len() == 2,
        button_is(k@[1]@[0], "Stop Loss ("@ + stoploss@ + "%)"@, "edit_stoploss"@),
        button_is(k@[1]@[1], "Take Profit ("@ + takeprofit@ + "%)"@, "edit_takeprofit"@),
        k@[2]@.len() == 1,
        button_is(
            k@[2]@[0],
            "Trailing "@ + (if trailing {
                "✅"@
            } else {
                "❌"@
            }),
            "toggle_trailing"@,
        ),
        k@[3]@.len() == 2,
        button_is(
            k@[3]@[0],
            "Trail SL ("@ + trailing_stop_loss@ + "%)"@,
            "edit_trailing_stoploss"@,
        ),
        button_is(
            k@[3]@[1],
            "Trail TP ("@ + trailing_take_profit@ + "%)"@,
            "edit_trailing_takeprofit"@,
        ),
        k@[4]@.len() == 2,
        button_is(
            k@[4]@[0],
            "Multi-wallet "@ + (if multiwallet {
                "✅"@
            } else {
                "❌"@
            }),
            "toggle_multiwallet"@,
        ),
        button_is(k@[4]@[1], "MEV Settings"@, "edit_mev_settings"@),
{
    let mut k: Vec<Vec<Button>> = Vec::new();
    let mut r0: Vec<Button> = Vec::new();
    r0.push(button("⬅️ Back to Settings", "settings"));
    k.push(r0);
    let mut r1: Vec<Button> = Vec::new();
    r1.push(
        Button { label: labelled("Stop Loss (", stoploss, "%)"), data: "edit_stoploss".to_owned() },
    );
    r1.push(
        Button {
            label: labelled("Take Profit (", takeprofit, "%)"),
            data: "edit_takeprofit".to_owned(),
        },
    );
    k.push(r1);
    let mut r2: Vec<Button> = Vec::new();
    r2.push(
        Button {
            label: labelled("Trailing ", flag_mark(trailing), ""),
            data: "toggle_trailing".to_owned(),
        },
    );
    k.push(r2);
    let mut r3: Vec<Button> = Vec::new();
    r3.push(
        Button {
            label: labelled("Trail SL (", trailing_stop_loss, "%)"),
            data: "edit_trailing_stoploss".to_owned(),
        },
    );
    r3.push(
        Button {
            label: labelled("Trail TP (", trailing_take_profit, "%)"),
            data: "edit_trailing_takeprofit".to_owned(),
        },
    );
    k.push(r3);
    let mut r4: Vec<Button> = Vec::new();
    r4.push(
        Button {
            label: labelled("Multi-wallet ", flag_mark(multiwallet), ""),
            data: "toggle_multiwallet".to_owned(),
        },
    );
    r4.push(button("MEV Settings", "edit_mev_settings"));
    k.push(r4);
    proof {
        reveal_strlit("");
        assert(("Trailing "@ + (if trailing { "✅"@ } else { "❌"@ }) + ""@) =~= "Trailing "@ + (
        if trailing {
            "✅"@
        } else {
            "❌"@
        }));
        assert(("Multi-wallet "@ + (if multiwallet { "✅"@ } else { "❌"@ }) + ""@) =~= "Multi-wallet "@
            + (if multiwallet {
            "✅"@
        } else {
            "❌"@
        }));
    }
    k
}

/// The buttons of the wallet list: a rename and a delete button for each
/// wallet, then a row to create a wallet and a row to go back.
pub fn wallet_list_keyboard(wallets: &Vec<WalletLine>) -> (k: Vec<Vec<Button>>)
    ensures
        k@.len() == wallets@.len() + 2,
        forall|i: int|
            0 <= i < wallets@.len() ==> {
                &&& (#[trigger] k@[i])@.len() == 2
                &&& button_is(k@[i]@[0], "✏️ Rename "@ + wallets@[i].name@, "rename_wallet:"@ + wallets@[i].address@)
                &&& button_is(k@[i]@[1], "🗑️ Delete "@ + wallets@[i].name@, "delete_wallet:"@ + wallets@[i].address@)
            },
        k@[wallets@.len() as int]@.len() == 1,
        button_is(k@[wallets@.len() as int]@[0], "➕ Create New Wallet"@, "create_wallet"@),
        k@[wallets@.len() + 1int]@.len() == 1,
        button_is(k@[wallets@.len() + 1int]@[0], "🔙 Back"@, "wallets_menu"@),
{
    let mut k: Vec<Vec<Button>> = Vec::new();
    let mut i: usize = 0;
    while i < wallets.len()
        invariant
            i <= wallets@.len(),
            k@.len() == i,
            forall|j: int|
                0 <= j < i ==> {
                    &&& (#[trigger] k@[j])@.len() == 2
                    &&& button_is(k@[j]@[0], "✏️ Rename "@ + wallets@[j].name@, "rename_wallet:"@ + wallets@[j].address@)
                    &&& button_is(k@[j]@[1], "🗑️ Delete "@ + wallets@[j].name@, "delete_wallet:"@ + wallets@[j].address@)
                },
        decreases wallets.len() - i,
    {
        let (rename, delete) = wallet_buttons(&wallets[i]);
        let mut row: Vec<Button> = Vec::new();
        row.push(rename);
        row.push(delete);
        k.push(row);
        i = i + 1;
    }
    let mut create: Vec<Button> = Vec::new();
    create.push(button("➕ Create New Wallet", "create_wallet"));
    k.push(create);
    let mut back: Vec<Button> = Vec::new();
    back.push(button("🔙 Back", "wallets_menu"));
    k.push(back);
    k
}

/// A setting whose new value the bot asks for.
#[derive(PartialEq, Eq, Debug, Clone, Copy, Structural)]
pub enum EditSetting {
    StopLoss,
    TakeProfit,
    TrailingStopLoss,
    TrailingTakeProfit,
    MevSettings,
}

/// The prompt that asks for a setting's new value.
pub open spec fn edit_prompt_spec(e: EditSetting) -> Seq<char> {
    match e {
        EditSetting::StopLoss => "Enter new stop loss percentage (0-100):\n\nReply to this message with a number."@,
        EditSetting::TakeProfit => "Enter new take profit percentage (0-100):\n\nReply to this message with a number."@,
        EditSetting::TrailingStopLoss => "Enter new trailing stop loss percentage:\n\nReply to this message with a number."@,
        EditSetting::TrailingTakeProfit => "Enter new trailing take profit percentage:\n\nReply to this message with a number."@,
        EditSetting::MevSettings => "MEV Settings:\nUse /set_mev_chains command to specify chain IDs where MEV should be enabled."@,
    }
}

/// The prompt that asks for the new value of `e`.
pub fn edit_prompt(e: EditSetting) -> (p: &'static str)
    ensures
        p@ == edit_prompt_spec(e),
{
    match e {
        EditSetting::StopLoss => "Enter new stop loss percentage (0-100):\n\nReply to this message with a number.",
        EditSetting::TakeProfit => "Enter new take profit percentage (0-100):\n\nReply to this message with a number.",
        EditSetting::TrailingStopLoss => "Enter new trailing stop loss percentage:\n\nReply to this message with a number.",
        EditSetting::TrailingTakeProfit => "Enter new trailing take profit percentage:\n\nReply to this message with a number.",
        EditSetting::MevSettings => "MEV Settings:\nUse /set_mev_chains command to specify chain IDs where MEV should be enabled.",
    }
}

/// The address of a wallet's rename or delete button reads back from the
/// button's callback data, when the address holds no `:`.
pub proof fn lemma_wallet_button_callback(address: Seq<char>)
    requires
        forall|i: int| 0 <= i < address.len() ==> address[i] != ':',
    ensures
        starts_with_seq("rename_wallet:"@ + address, "rename_wallet:"@),
        field_after("rename_wallet:"@ + address, 14) == address,
        !starts_with_seq("delete_wallet:"@ + address, "rename_wallet:"@),
        starts_with_seq("delete_wallet:"@ + address, "delete_wallet:"@),
        field_after("delete_wallet:"@ + address, 14) == address,
{
    reveal_strlit("rename_wallet:");
    reveal_strlit("delete_wallet:");
    lemma_colon_pos(address);
    let r = "rename_wallet:"@ + address;
    let d = "delete_wallet:"@ + address;
    assert(r.skip(14) =~= address);
    assert(d.skip(14) =~= address);
    assert(address.take(address.len() as int) =~= address);
    assert(r.subrange(0, 14) =~= "rename_wallet:"@);
    assert(d.subrange(0, 14) =~= "delete_wallet:"@);
    assert(d[0] != "rename_wallet:"@[0]);
}

/// Some character `a` of `s`, at position `k` or later, is directly followed by `b`.
pub open spec fn has_pair_from(s: Seq<char>, a: char, b: char, k: int) -> bool
    decreases s.len() - k,
{
    if k < 0 || k + 1 >= s.len() {
        false
    } else {
        (s[k] == a && s[k + 1] == b) || has_pair_from(s, a, b, k + 1)
    }
}

proof fn lemma_pair_at(s: Seq<char>, a: char, b: char, k: int, j: int)
    requires
        0 <= k <= j,
        j + 1 < s.len(),
        s[j] == a,
        s[j + 1] == b,
    ensures
        has_pair_from(s, a, b, k),
    decreases j - k,
{
    if k < j {
        lemma_pair_at(s, a, b, k + 1, j);
    }
}

proof fn lemma_no_phrase(s: Seq<char>, phrase: Seq<char>, a: char, b: char, k: int)
    requires
        !has_pair_from(s, a, b, 0),
        0 <= k,
        k + 1 < phrase.len(),
        phrase[k] == a,
        phrase[k + 1] == b,
    ensures
        !contains_seq(s, phrase),
{
    if contains_seq(s, phrase) {
        let i = choose|i: int| occurs_at(s, phrase, i);
        assert(s[i + k] == phrase[k]);
        assert(s[i + k + 1] == phrase[k + 1]);
        lemma_pair_at(s, a, b, 0, i + k);
    }
}

proof fn lemma_prompt_pairs()
    ensures
        !has_pair_from(edit_prompt_spec(EditSetting::TakeProfit), 'p', ' ', 0),
        !has_pair_from(edit_prompt_spec(EditSetting::TrailingTakeProfit), 'p', ' ', 0),
        !has_pair_from(edit_prompt_spec(EditSetting::MevSettings), 'r', 'c', 0),
{
    assert(!has_pair_from(edit_prompt_spec(EditSetting::TakeProfit), 'p', ' ', 0)) by {
        reveal_strlit("Enter new take profit percentage (0-100):\n\nReply to this message with a number.");
        reveal_with_fuel(has_pair_from, 90);
    }
    assert(!has_pair_from(edit_prompt_spec(EditSetting::TrailingTakeProfit), 'p', ' ', 0)) by {
        reveal_strlit("Enter new trailing take profit percentage:\n\nReply to this message with a number.");
        reveal_with_fuel(has_pair_from, 90);
    }
    assert(!has_pair_from(edit_prompt_spec(EditSetting::MevSettings), 'r', 'c', 0)) by {
        reveal_strlit("MEV Settings:\nUse /set_mev_chains command to specify chain IDs where MEV should be enabled.");
        reveal_with_fuel(has_pair_from, 100);
    }
}

/// A reply to a prompt for a new value sets the stop loss when the prompt
/// asked for the stop loss or the trailing stop loss, the take profit when it
/// asked for the take profit or the trailing take profit, and nothing after
/// the MEV prompt.
pub proof fn lemma_prompt_reply_field(e: EditSetting)
    ensures
        reply_field_spec(edit_prompt_spec(e)) == match e {
            EditSetting::StopLoss | EditSetting::TrailingStopLoss => ReplyField::StopLoss,
            EditSetting::TakeProfit | EditSetting::TrailingTakeProfit => ReplyField::TakeProfit,
            EditSetting::MevSettings => ReplyField::Other,
        },
{
    reveal_strlit("stop loss percentage");
    reveal_strlit("take profit percentage");
    reveal_strlit("trailing stop loss percentage");
    reveal_strlit("trailing take profit percentage");
    let sl = "stop loss percentage"@;
    let tp = "take profit percentage"@;
    let tsl = "trailing stop loss percentage"@;
    let ttp = "trailing take profit percentage"@;
    let p = edit_prompt_spec(e);
    lemma_prompt_pairs();
    match e {
        EditSetting::StopLoss => {
            reveal_strlit("Enter new stop loss percentage (0-100):\n\nReply to this message with a number.");
            assert(p.subrange(10, 30) =~= sl);
            assert(occurs_at(p, sl, 10));
        },
        EditSetting::TrailingStopLoss => {
            reveal_strlit("Enter new trailing stop loss percentage:\n\nReply to this message with a number.");
            assert(p.subrange(19, 39) =~= sl);
            assert(occurs_at(p, sl, 19));
        },
        EditSetting::TakeProfit => {
            reveal_strlit("Enter new take profit percentage (0-100):\n\nReply to this message with a number.");
            assert(p.subrange(10, 32) =~= tp);
            assert(occurs_at(p, tp, 10));
            lemma_no_phrase(p, sl, 'p', ' ', 3);
        },
        EditSetting::TrailingTakeProfit => {
            reveal_strlit("Enter new trailing take profit percentage:\n\nReply to this message with a number.");
            assert(p.subrange(19, 41) =~= tp);
            assert(occurs_at(p, tp, 19));
            lemma_no_phrase(p, sl, 'p', ' ', 3);
        },
        EditSetting::MevSettings => {
            reveal_strlit("MEV Settings:\nUse /set_mev_chains command to specify chain IDs where MEV should be enabled.");
            lemma_no_phrase(p, sl, 'r', 'c', 12);
            lemma_no_phrase(p, tp, 'r', 'c', 14);
            lemma_no_phrase(p, tsl, 'r', 'c', 21);
            lemma_no_phrase(p, ttp, 'r', 'c', 23);
        },
    }
}

/// The prompt for a wallet's new name.
pub fn rename_prompt(wallet_address: &str) -> (t: String)
    ensures
        t@ == "Please send the new name for wallet "@ + wallet_address@ + "."@,
{
    let mut t = String::new();
    push_str(&mut t, "Please send the new name for wallet ");
    push_str(&mut t, wallet_address);
    push_str(&mut t, ".");
    t
}

} // verus!
