use dipsniper::menu::{
    edit_prompt, rename_prompt, EditSetting,
    flag_mark, invalid_percentage_message, mev_chains_text, parse_callback, reply_field,
    toggled_message, trade_settings_keyboard, trade_settings_text, updated_message,
    wallet_buttons, wallet_list_keyboard, wallet_list_text, CallbackAction, ReplyField, WalletLine,
};

fn line(name: &str, address: &str) -> WalletLine {
    WalletLine { name: name.to_string(), address: address.to_string() }
}

#[test]
fn callbacks_name_their_action() {
    assert!(matches!(parse_callback("wallets_menu"), CallbackAction::WalletsMenu));
    assert!(matches!(parse_callback("create_wallet"), CallbackAction::CreateWallet));
    assert!(matches!(parse_callback("show_wallets"), CallbackAction::ShowWallets));
    assert!(matches!(parse_callback("trade_settings"), CallbackAction::TradeSettings));
    assert!(matches!(parse_callback("settings"), CallbackAction::Settings));
    assert!(matches!(parse_callback("edit_stoploss"), CallbackAction::EditStoploss));
    assert!(matches!(parse_callback("edit_takeprofit"), CallbackAction::EditTakeprofit));
    assert!(matches!(parse_callback("toggle_trailing"), CallbackAction::ToggleTrailing));
    assert!(matches!(parse_callback("edit_trailing_stoploss"), CallbackAction::EditTrailingStoploss));
    assert!(matches!(parse_callback("edit_trailing_takeprofit"), CallbackAction::EditTrailingTakeprofit));
    assert!(matches!(parse_callback("toggle_multiwallet"), CallbackAction::ToggleMultiwallet));
    assert!(matches!(parse_callback("edit_mev_settings"), CallbackAction::EditMevSettings));
    assert!(matches!(parse_callback("settings "), CallbackAction::Ignore));
    assert!(matches!(parse_callback(""), CallbackAction::Ignore));
}

#[test]
fn wallet_callbacks_carry_the_address() {
    match parse_callback("rename_wallet:0xabc") {
        CallbackAction::RenameWallet(a) => assert_eq!(a, "0xabc"),
        _ => panic!("expected a rename"),
    }
    match parse_callback("delete_wallet:0xdef:extra") {
        CallbackAction::DeleteWallet(a) => assert_eq!(a, "0xdef"),
        _ => panic!("expected a delete"),
    }
    match parse_callback("rename_wallet:") {
        CallbackAction::RenameWallet(a) => assert_eq!(a, ""),
        _ => panic!("expected a rename"),
    }
}

#[test]
fn replies_are_routed_by_prompt() {
    assert_eq!(
        reply_field("Enter new stop loss percentage (0-100):\n\nReply to this message with a number."),
        ReplyField::StopLoss
    );
    assert_eq!(
        reply_field("Enter new take profit percentage (0-100):\n\nReply to this message with a number."),
        ReplyField::TakeProfit
    );
    assert_eq!(reply_field("Settings Menu:"), ReplyField::Other);
}

#[test]
fn trailing_prompts_set_the_plain_setting() {
    assert_eq!(
        reply_field("Enter new trailing stop loss percentage:\n\nReply to this message with a number."),
        ReplyField::StopLoss
    );
    assert_eq!(
        reply_field("Enter new trailing take profit percentage:\n\nReply to this message with a number."),
        ReplyField::TakeProfit
    );
}

#[test]
fn wallet_list() {
    assert_eq!(wallet_list_text(&vec![]), "Your Wallets:\n\nNo wallets found.");
    let ws = vec![line("Wallet 0x7E5F45", "0x7E5F4552091A69125d5DfCb7b8C2659029395Bdf"), line("b", "0x2")];
    assert_eq!(
        wallet_list_text(&ws),
        "Your Wallets:\n\n🔑 Wallet 0x7E5F45 (0x7E5F4552091A69125d5DfCb7b8C2659029395Bdf)\n🔑 b (0x2)\n"
    );
}

#[test]
fn wallet_keyboard() {
    let (r, d) = wallet_buttons(&line("main", "0xabc"));
    assert_eq!(r.label, "✏️ Rename main");
    assert_eq!(r.data, "rename_wallet:0xabc");
    assert_eq!(d.label, "🗑️ Delete main");
    assert_eq!(d.data, "delete_wallet:0xabc");
    let k = wallet_list_keyboard(&vec![line("main", "0xabc")]);
    assert_eq!(k.len(), 3);
    assert_eq!(k[0][1].data, "delete_wallet:0xabc");
    assert_eq!(k[1][0].label, "➕ Create New Wallet");
    assert_eq!(k[1][0].data, "create_wallet");
    assert_eq!(k[2][0].label, "🔙 Back");
    assert_eq!(k[2][0].data, "wallets_menu");
    assert_eq!(wallet_list_keyboard(&vec![]).len(), 2);
}

#[test]
fn rename_callback_reads_back_the_button_address() {
    let (r, _) = wallet_buttons(&line("x", "0x7E5F4552091A69125d5DfCb7b8C2659029395Bdf"));
    match parse_callback(&r.data) {
        CallbackAction::RenameWallet(a) => assert_eq!(a, "0x7E5F4552091A69125d5DfCb7b8C2659029395Bdf"),
        _ => panic!("expected a rename"),
    }
}

#[test]
fn mev_chain_list() {
    assert_eq!(mev_chains_text(&vec![]), "None");
    assert_eq!(mev_chains_text(&vec![1]), "1");
    assert_eq!(mev_chains_text(&vec![1, 56, -3]), "1, 56, -3");
}

#[test]
fn toggles_and_updates() {
    assert_eq!(
        toggled_message("Trailing", true),
        "Trailing has been enabled. Use the back button to return to settings."
    );
    assert_eq!(
        toggled_message("Multi-wallet", false),
        "Multi-wallet has been disabled. Use the back button to return to settings."
    );
    assert_eq!(flag_mark(true), "✅");
    assert_eq!(flag_mark(false), "❌");
    assert_eq!(updated_message(ReplyField::StopLoss, "12.5").unwrap(), "Stop loss has been updated to 12.5%");
    assert_eq!(updated_message(ReplyField::TakeProfit, "50").unwrap(), "Take profit has been updated to 50%");
    assert_eq!(
        updated_message(ReplyField::TrailingStopLoss, "3").unwrap(),
        "Trailing stop loss has been updated to 3%"
    );
    assert_eq!(
        updated_message(ReplyField::TrailingTakeProfit, "4").unwrap(),
        "Trailing take profit has been updated to 4%"
    );
    assert!(updated_message(ReplyField::Other, "4").is_none());
    assert_eq!(invalid_percentage_message(), "Please enter a valid percentage between 0 and 100");
}

#[test]
fn trade_settings_screen() {
    let t = trade_settings_text("10", "50", true, "0", "0", false, &vec![1, 56]);
    assert_eq!(
        t,
        "🛠 Trade Settings\n\nStop Loss: 10%\nTake Profit: 50%\nTrailing: ✅\nTrailing Stop Loss: 0%\nTrailing Take Profit: 0%\nMulti-wallet: ❌\nMEV Enabled Chains: 1, 56\n\nSelect a setting to modify:"
    );
    let t2 = trade_settings_text("1", "2", false, "3", "4", true, &vec![]);
    assert!(t2.ends_with("MEV Enabled Chains: None\n\nSelect a setting to modify:"));
    let k = trade_settings_keyboard("10", "50", true, "0", "0", false);
    assert_eq!(k.len(), 5);
    assert_eq!(k[0][0].label, "⬅️ Back to Settings");
    assert_eq!(k[1][0].label, "Stop Loss (10%)");
    assert_eq!(k[1][1].data, "edit_takeprofit");
    assert_eq!(k[2][0].label, "Trailing ✅");
    assert_eq!(k[3][0].label, "Trail SL (0%)");
    assert_eq!(k[3][1].data, "edit_trailing_takeprofit");
    assert_eq!(k[4][0].label, "Multi-wallet ❌");
    assert_eq!(k[4][1].data, "edit_mev_settings");
}

#[test]
fn replies_to_edit_prompts() {
    assert_eq!(reply_field(edit_prompt(EditSetting::StopLoss)), ReplyField::StopLoss);
    assert_eq!(reply_field(edit_prompt(EditSetting::TrailingStopLoss)), ReplyField::StopLoss);
    assert_eq!(reply_field(edit_prompt(EditSetting::TakeProfit)), ReplyField::TakeProfit);
    assert_eq!(reply_field(edit_prompt(EditSetting::TrailingTakeProfit)), ReplyField::TakeProfit);
    assert_eq!(reply_field(edit_prompt(EditSetting::MevSettings)), ReplyField::Other);
    assert_eq!(
        edit_prompt(EditSetting::MevSettings),
        "MEV Settings:\nUse /set_mev_chains command to specify chain IDs where MEV should be enabled."
    );
}

#[test]
fn rename_prompt_names_the_wallet() {
    assert_eq!(rename_prompt("0xabc"), "Please send the new name for wallet 0xabc.");
}
