//! Player accounts: a player is known by the address of its wallet.

use vstd::prelude::*;
use crate::catalog::{Id, Timestamp};

verus! {

/// Player account, linked to a wallet address.
#[derive(Debug, Clone, PartialEq, Eq)]
pub struct Player {
    pub id: Id,
    pub wallet_address: String,
    pub username: Option<String>,
    pub created_at: Timestamp,
    pub updated_at: Timestamp,
    pub last_login: Option<Timestamp>,
}

/// Data for creating a new player.
#[derive(Debug, Clone, PartialEq, Eq)]
pub struct CreatePlayer {
    pub wallet_address: String,
    pub username: Option<String>,
}

/// The account that is made for `data` under `id` at `now`: it has not
/// logged in yet.
pub fn new_player(id: Id, data: CreatePlayer, now: Timestamp) -> (player: Player)
    ensures
        player == (Player {
            id,
            wallet_address: data.wallet_address,
            username: data.username,
            created_at: now,
            updated_at: now,
            last_login: None,
        }),
{
    Player {
        id,
        wallet_address: data.wallet_address,
        username: data.username,
        created_at: now,
        updated_at: now,
        last_login: None,
    }
}

} // verus!
