use my_rust_shinobi::api::PlayerInfo;
use my_rust_shinobi::display::{action_cost_label, current_page, Page};
use my_rust_shinobi::wallet::{
    account_label, accounts_found, authentication_failed, begin_connecting, connection_failed,
    player_authenticated, player_display_name, select_account, truncate_address, WalletAccount,
    WalletState,
};

fn account(address: &str, name: Option<&str>) -> WalletAccount {
    WalletAccount {
        address: String::from(address),
        name: name.map(String::from),
        source: String::from("polkadot-js"),
    }
}

fn player(username: Option<&str>, is_new: bool) -> PlayerInfo {
    PlayerInfo {
        id: String::from("a0000000-0000-0000-0000-000000000001"),
        wallet_address: String::from("5Grw"),
        username: username.map(String::from),
        is_new,
    }
}

#[test]
fn long_addresses_are_shortened() {
    assert_eq!(
        truncate_address("5GrwvaEF5zXb26Fz9rcQpDWS57CtERHpNehXCPcNoHGKutQY"),
        "5Grwva...utQY"
    );
    assert_eq!(truncate_address("0123456789abc"), "012345...9abc");
    assert_eq!(truncate_address("0123456789ab"), "0123456789ab");
    assert_eq!(truncate_address("short"), "short");
    assert_eq!(truncate_address(""), "");
}

#[test]
fn addresses_are_cut_by_bytes_and_never_inside_a_character() {
    // Nine letters of two bytes each: cut at the sixth byte and four from the end.
    assert_eq!(truncate_address("ééééééééé"), "ééé...éé");
    // Six letters of two bytes each are twelve bytes: shown whole.
    assert_eq!(truncate_address("éééééé"), "éééééé");
    // Seven characters, thirteen bytes.
    assert_eq!(truncate_address("aéééééé"), "aéééééé");
    assert_eq!(truncate_address("aaéééééé"), "aaéé...éé");
    // The sixth byte lies inside a character: shown whole.
    assert_eq!(truncate_address("aéééééééé"), "aéééééééé");
    // The fourth byte from the end lies inside a character: shown whole.
    assert_eq!(truncate_address("aaaaaaaaaaéaaa"), "aaaaaaaaaaéaaa");
    assert_eq!(truncate_address("aaaaaaaaaéaaaa"), "aaaaaa...aaaa");
}

#[test]
fn default_state_is_disconnected() {
    let state = WalletState::default();
    assert!(!state.connected && !state.loading && !state.is_new_player);
    assert!(state.accounts.is_empty());
    assert_eq!(state.selected_account, None);
    assert_eq!(state.error, None);
    assert_eq!(state.player, None);
    let blank = WalletAccount::default();
    assert_eq!((blank.address.as_str(), blank.name, blank.source.as_str()), ("", None, ""));
}

#[test]
fn connection_runs_from_loading_to_connected() {
    let mut state = WalletState::default();
    state.error = Some(String::from("old"));
    begin_connecting(&mut state);
    assert!(state.loading);
    assert_eq!(state.error, None);
    let accounts = vec![account("5Alice", Some("Alice")), account("5Bob", None)];
    let address = accounts_found(&mut state, accounts.clone());
    assert_eq!(address.as_deref(), Some("5Alice"));
    assert_eq!(state.accounts, accounts);
    assert_eq!(state.selected_account, Some(accounts[0].clone()));
    assert!(state.loading && !state.connected);
    player_authenticated(&mut state, player(None, true));
    assert!(!state.loading && state.connected && state.is_new_player);
    assert_eq!(state.player, Some(player(None, true)));
    assert_eq!(state.error, None);
    assert_eq!(state.accounts, accounts);
}

#[test]
fn wallet_without_accounts_ends_with_an_error() {
    let mut state = WalletState::default();
    begin_connecting(&mut state);
    assert_eq!(accounts_found(&mut state, Vec::new()), None);
    assert!(!state.loading && !state.connected);
    assert_eq!(state.error.as_deref(), Some("No accounts found in wallet"));
    assert_eq!(state.selected_account, None);
}

#[test]
fn failures_are_kept_as_errors() {
    let mut state = WalletState::default();
    begin_connecting(&mut state);
    connection_failed(&mut state, String::from("polkadotWallet not found"));
    assert!(!state.loading && !state.connected);
    assert_eq!(state.error.as_deref(), Some("polkadotWallet not found"));

    begin_connecting(&mut state);
    accounts_found(&mut state, vec![account("5Alice", None)]);
    authentication_failed(&mut state, "Database error: timeout");
    assert!(!state.loading && state.connected);
    assert_eq!(state.error.as_deref(), Some("Server error: Database error: timeout"));
    assert_eq!(state.player, None);
    assert_eq!(state.accounts.len(), 1);
}

#[test]
fn account_is_selected_by_its_address() {
    let mut state = WalletState::default();
    let accounts = vec![
        account("5Alice", Some("Alice")),
        account("5Bob", None),
        account("5Bob", Some("Second Bob")),
    ];
    accounts_found(&mut state, accounts.clone());
    select_account(&mut state, "5Bob");
    assert_eq!(state.selected_account, Some(accounts[1].clone()));
    select_account(&mut state, "5Carol");
    assert_eq!(state.selected_account, Some(accounts[1].clone()));
    select_account(&mut state, "5Alice");
    assert_eq!(state.selected_account, Some(accounts[0].clone()));
    assert_eq!(state.accounts, accounts);
}

#[test]
fn names_fall_back_to_stand_ins() {
    assert_eq!(account_label(&account("5GrwvaEF5zXb26Fz9rcQpDWS57CtERHpNehXCPcNoHGKutQY", None)), "5Grwva...utQY");
    assert_eq!(account_label(&account("5Grw", Some("Main"))), "Main");
    assert_eq!(player_display_name(&Some(player(Some("Aria"), false))), "Aria");
    assert_eq!(player_display_name(&Some(player(None, false))), "Wandering Hero");
    assert_eq!(player_display_name(&None), "Wandering Hero");
}

#[test]
fn costs_are_named_on_the_button() {
    assert_eq!(action_cost_label(25, 3), "25 Gold + 3 AP");
    assert_eq!(action_cost_label(25, 0), "25 Gold");
    assert_eq!(action_cost_label(0, 3), "3 AP");
    assert_eq!(action_cost_label(0, 0), "Free");
    assert_eq!(action_cost_label(-5, -1), "Free");
    assert_eq!(action_cost_label(-5, 7), "7 AP");
    assert_eq!(action_cost_label(1, -7), "1 Gold");
    assert_eq!(
        action_cost_label(i64::MAX, i32::MAX),
        "9223372036854775807 Gold + 2147483647 AP"
    );
    assert_eq!(action_cost_label(1000, 10), "1000 Gold + 10 AP");
}

#[test]
fn pages_have_their_paths() {
    assert_eq!(Page::Home.path(), "/");
    assert_eq!(Page::Character.path(), "/character");
    assert_eq!(Page::Quests.path(), "/quests");
    assert_eq!(current_page("/"), Page::Home);
    assert_eq!(current_page("/quests"), Page::Quests);
    assert_eq!(current_page("/character"), Page::Character);
    assert_eq!(current_page("/shop"), Page::Home);
    assert_eq!(current_page(""), Page::Home);
    assert_eq!(current_page("/character/"), Page::Home);
}
