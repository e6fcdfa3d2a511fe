//! The wallet connection: which accounts the wallet offers, which one is
//! selected, and how far the login has come.
//!
//! Connecting talks to the wallet and then to the server. Each answer is an
//! event, and the functions of this module say what an event does to the
//! state. The caller waits for the answers.

use vstd::prelude::*;
use vstd::utf8::{decode_utf8, encode_utf8, encode_utf8_decode_utf8, is_char_boundary};
use crate::api::PlayerInfo;
use crate::text::{copy_optional, same_text};

verus! {

/// An account that a wallet offers.
#[derive(Debug, Clone, PartialEq, Eq)]
pub struct WalletAccount {
    pub address: String,
    pub name: Option<String>,
    pub source: String,
}

impl Default for WalletAccount {
    fn default() -> (account: Self)
        ensures
            account.address@ == Seq::<char>::empty(),
            account.name is None,
            account.source@ == Seq::<char>::empty(),
    {
        WalletAccount { address: String::new(), name: None, source: String::new() }
    }
}

/// The state of the wallet connection.
#[derive(Debug, Clone, PartialEq, Eq)]
pub struct WalletState {
    pub connected: bool,
    pub accounts: Vec<WalletAccount>,
    pub selected_account: Option<WalletAccount>,
    pub error: Option<String>,
    pub loading: bool,
    /// Player info from the server, set after authentication.
    pub player: Option<PlayerInfo>,
    /// Whether this is a new player, just registered.
    pub is_new_player: bool,
}

impl Default for WalletState {
    fn default() -> (state: Self)
        ensures
            !state.connected,
            state.accounts@ == Seq::<WalletAccount>::empty(),
            state.selected_account is None,
            state.error is None,
            !state.loading,
            state.player is None,
            !state.is_new_player,
    {
        WalletState {
            connected: false,
            accounts: Vec::new(),
            selected_account: None,
            error: None,
            loading: false,
            player: None,
            is_new_player: false,
        }
    }
}

/// How many bytes of an address are shown whole.
pub const SHORT_ADDRESS_LENGTH: usize = 12;

/// Whether an address is cut for display: it is longer than twelve bytes,
/// and neither its sixth byte nor its fourth byte from the end lies inside a
/// character.
pub open spec fn is_cut(address: Seq<char>) -> bool {
    let bytes = encode_utf8(address);
    &&& bytes.len() > SHORT_ADDRESS_LENGTH
    &&& is_char_boundary(bytes, 6)
    &&& is_char_boundary(bytes, bytes.len() - 4)
}

/// An address as it is shown: where it is cut, the text of its first six
/// bytes and the text of its last four bytes with three dots between them,
/// and else the address whole.
pub open spec fn truncated(address: Seq<char>) -> Seq<char> {
    let bytes = encode_utf8(address);
    if is_cut(address) {
        decode_utf8(bytes.subrange(0, 6)) + "..."@ + decode_utf8(
            bytes.subrange(bytes.len() - 4, bytes.len() as int),
        )
    } else {
        address
    }
}

/// Shortens an address for display. An address of letters and digits that
/// take one byte each is cut where it has more than twelve of them, to its
/// first six and its last four.
pub fn truncate_address(address: &str) -> (shown: String)
    ensures
        shown@ == truncated(address@),
{
    let length = address.as_bytes().len();
    if length > SHORT_ADDRESS_LENGTH && address.is_char_boundary(6) && address.is_char_boundary(
        length - 4,
    ) {
        let (head, _) = address.split_at(6);
        let (_, tail) = address.split_at(length - 4);
        proof {
            encode_utf8_decode_utf8(head@);
            encode_utf8_decode_utf8(tail@);
        }
        String::from_str(head).concat("...").concat(tail)
    } else {
        String::from_str(address)
    }
}

fn copy_account(account: &WalletAccount) -> (copy: WalletAccount)
    ensures
        copy == *account,
{
    WalletAccount {
        address: account.address.clone(),
        name: copy_optional(&account.name),
        source: account.source.clone(),
    }
}

/// The name under which an account is listed: its name, or its shortened
/// address where it has none.
pub fn account_label(account: &WalletAccount) -> (label: String)
    ensures
        label@ == match account.name {
            Some(name) => name@,
            None => truncated(account.address@),
        },
{
    match &account.name {
        Some(name) => name.clone(),
        None => truncate_address(account.address.as_str()),
    }
}

/// The name under which a player is greeted: its username, or a stand-in
/// where it has none or no player is known.
pub fn player_display_name(player: &Option<PlayerInfo>) -> (name: String)
    ensures
        name@ == match *player {
            Some(PlayerInfo { username: Some(username), .. }) => username@,
            _ => "Wandering Hero"@,
        },
{
    match player {
        Some(info) => match &info.username {
            Some(username) => username.clone(),
            None => String::from_str("Wandering Hero"),
        },
        None => String::from_str("Wandering Hero"),
    }
}

/// The connection is being made: the state is loading and the last error is
/// forgotten.
pub fn begin_connecting(state: &mut WalletState)
    ensures
        *final(state) == (WalletState { loading: true, error: None, ..*old(state) }),
{
    state.loading = true;
    state.error = None;
}

/// The wallet has answered with its accounts. The first account is
/// selected, and its address is returned for the login at the server. A
/// wallet without accounts ends the connection with an error.
pub fn accounts_found(state: &mut WalletState, accounts: Vec<WalletAccount>) -> (address: Option<
    String,
>)
    ensures
        final(state).accounts@ == accounts@,
        final(state).connected == old(state).connected,
        final(state).player == old(state).player,
        final(state).is_new_player == old(state).is_new_player,
        accounts@.len() > 0 ==> {
            &&& final(state).selected_account == Some(accounts@[0])
            &&& address == Some(accounts@[0].address)
            &&& final(state).loading == old(state).loading
            &&& final(state).error == old(state).error
        },
        accounts@.len() == 0 ==> {
            &&& final(state).selected_account is None
            &&& address is None
            &&& !final(state).loading
            &&& final(state).error matches Some(message) && message@
                == "No accounts found in wallet"@
        },
{
    if accounts.len() > 0 {
        let first = copy_account(&accounts[0]);
        let address = first.address.clone();
        state.selected_account = Some(first);
        state.accounts = accounts;
        Some(address)
    } else {
        state.selected_account = None;
        state.accounts = accounts;
        state.loading = false;
        state.error = Some(String::from_str("No accounts found in wallet"));
        None
    }
}

/// The server has let the player in: the connection stands, and the state
/// knows the player and whether it is new.
pub fn player_authenticated(state: &mut WalletState, info: PlayerInfo)
    ensures
        *final(state) == (WalletState {
            loading: false,
            connected: true,
            is_new_player: info.is_new,
            player: Some(info),
            ..*old(state)
        }),
{
    state.loading = false;
    state.connected = true;
    state.is_new_player = info.is_new;
    state.player = Some(info);
}

/// The server has not let the player in: the wallet stays connected, and
/// the state holds the reason as a server error.
pub fn authentication_failed(state: &mut WalletState, reason: &str)
    ensures
        !final(state).loading,
        final(state).connected,
        final(state).error matches Some(message) && message@ == "Server error: "@ + reason@,
        final(state).accounts == old(state).accounts,
        final(state).selected_account == old(state).selected_account,
        final(state).player == old(state).player,
        final(state).is_new_player == old(state).is_new_player,
{
    state.loading = false;
    state.connected = true;
    state.error = Some(String::from_str("Server error: ").concat(reason));
}

/// The wallet could not be reached: the state holds the reason.
pub fn connection_failed(state: &mut WalletState, reason: String)
    ensures
        *final(state) == (WalletState { loading: false, error: Some(reason), ..*old(state) }),
{
    state.loading = false;
    state.error = Some(reason);
}

/// Whether the account at `i` is the first with the address.
pub open spec fn is_first_with_address(
    accounts: Seq<WalletAccount>,
    address: Seq<char>,
    i: int,
) -> bool {
    &&& 0 <= i < accounts.len()
    &&& accounts[i].address@ == address
    &&& forall|j: int| 0 <= j < i ==> (#[trigger] accounts[j]).address@ != address
}

/// Selects the first account with the given address. Where no account has
/// it, the selection stays.
pub fn select_account(state: &mut WalletState, address: &str)
    ensures
        final(state).accounts == old(state).accounts,
        final(state).connected == old(state).connected,
        final(state).error == old(state).error,
        final(state).loading == old(state).loading,
        final(state).player == old(state).player,
        final(state).is_new_player == old(state).is_new_player,
        forall|i: int|
            is_first_with_address(old(state).accounts@, address@, i) ==> final(state).selected_account
                == Some(#[trigger] old(state).accounts@[i]),
        (forall|i: int|
            0 <= i < old(state).accounts@.len() ==> (#[trigger] old(state).accounts@[i]).address@
                != address@) ==> final(state).selected_account == old(state).selected_account,
{
    let mut i: usize = 0;
    while i < state.accounts.len()
        invariant
            *state == *old(state),
            i <= state.accounts@.len(),
            forall|j: int| 0 <= j < i ==> (#[trigger] state.accounts@[j]).address@ != address@,
        decreases state.accounts@.len() - i,
    {
        if same_text(state.accounts[i].address.as_str(), address) {
            let account = copy_account(&state.accounts[i]);
            state.selected_account = Some(account);
            return;
        }
        i = i + 1;
    }
}

} // verus!
