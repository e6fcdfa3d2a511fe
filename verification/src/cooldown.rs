//! Cooldowns: setting one, asking whether one blocks an action, and clearing
//! out those that have ended.

use vstd::prelude::*;
use crate::arith::{clamp, saturating_sum_i64};
use crate::catalog::{Id, Timestamp};
use crate::character::ActionCooldown;
use crate::keyed::{
    lemma_row_bound, lemma_row_count, lemma_row_lookup, lemma_row_push, lemma_row_update,
    rows_to_map, Keyed};
use crate::store::CharacterStore;

verus! {

/// When a cooldown of `cooldown_seconds` that starts at `now` ends: their
/// sum, or the end of the range of points in time where the sum lies beyond
/// that range.
pub open spec fn cooldown_end(now: Timestamp, cooldown_seconds: i32) -> Timestamp {
    clamp(now + cooldown_seconds, i64::MIN as int, i64::MAX as int) as i64
}

/// Set a cooldown for an action: the character may invoke it again
/// `cooldown_seconds` after `now`. A cooldown that the action already has for
/// the character is replaced, not extended: whenever the old one ended, the
/// new one ends at `now + cooldown_seconds` (held to the range of points in
/// time), the character still has one cooldown for the action, and every
/// other cooldown is as it was.
pub fn set_action_cooldown(
    store: &mut CharacterStore,
    character_id: Id,
    action_id: Id,
    cooldown_seconds: i32,
    now: Timestamp,
) -> (cooldown: ActionCooldown)
    requires
        old(store).wf(),
    ensures
        final(store).wf(),
        final(store)@ == old(store)@.set_cooldown(
            character_id,
            action_id,
            cooldown_end(now, cooldown_seconds),
        ),
        cooldown == (ActionCooldown {
            character_id,
            action_id,
            available_at: cooldown_end(now, cooldown_seconds),
        }),
        i64::MIN <= now + cooldown_seconds <= i64::MAX ==> cooldown.available_at == now
            + cooldown_seconds,
        final(store)@.cooldowns[(character_id, action_id)] == cooldown,
        final(store)@.cooldown_until(character_id, action_id) == Some(cooldown.available_at),
        final(store)@.cooldowns.dom() == old(store)@.cooldowns.dom().insert(
            (character_id, action_id),
        ),
        forall|key: (Id, Id)|
            key != (character_id, action_id) && #[trigger] old(store)@.cooldowns.dom().contains(key)
                ==> final(store)@.cooldowns[key] == old(store)@.cooldowns[key],
{
    let cooldown = ActionCooldown {
        character_id,
        action_id,
        available_at: saturating_sum_i64(now, cooldown_seconds as i64),
    };
    proof {
        store.lemma_unfold();
    }
    match store.find_cooldown(character_id, action_id) {
        Some(i) => {
            proof {
                lemma_row_update(store.cooldowns@, i as int, cooldown);
            }
            store.cooldowns[i] = cooldown;
        },
        None => {
            proof {
                assert forall|j: int| 0 <= j < store.cooldowns@.len() implies (
                #[trigger] store.cooldowns@[j]).key() != cooldown.key() by {
                    if store.cooldowns@[j].key() == cooldown.key() {
                        lemma_row_lookup(store.cooldowns@, j);
                    }
                }
                lemma_row_push(store.cooldowns@, cooldown);
            }
            store.cooldowns.push(cooldown);
        },
    }
    proof {
        store.lemma_unfold();
    }
    cooldown
}

/// Check if an action is on cooldown: whether the character has a cooldown
/// for it that has not ended at `now`.
pub fn is_action_on_cooldown(
    store: &CharacterStore,
    character_id: Id,
    action_id: Id,
    now: Timestamp,
) -> (blocked: bool)
    requires
        store.wf(),
    ensures
        blocked == store@.on_cooldown(character_id, action_id, now),
{
    match store.find_cooldown(character_id, action_id) {
        Some(i) => store.cooldowns[i].available_at > now,
        None => false,
    }
}

/// Clean up expired cooldowns: takes out every cooldown that has ended at
/// `now` and returns how many there were. From `now` on, what remains blocks
/// exactly the actions that were blocked before.
pub fn cleanup_expired_cooldowns(store: &mut CharacterStore, now: Timestamp) -> (removed: u64)
    requires
        old(store).wf(),
    ensures
        final(store).wf(),
        final(store)@ == old(store)@.sweep(now),
        removed == old(store)@.cooldowns.len() - final(store)@.cooldowns.len(),
{
    let ghost before = store.cooldowns@;
    proof {
        store.lemma_unfold();
    }
    let mut kept: Vec<ActionCooldown> = Vec::new();
    let ghost mut origin: Seq<int> = Seq::empty();
    let mut i: usize = 0;
    while i < store.cooldowns.len()
        invariant
            store.cooldowns@ == before,
            i <= before.len(),
            kept@.len() == origin.len(),
            origin.len() <= i,
            forall|j: int|
                0 <= j < origin.len() ==> 0 <= #[trigger] origin[j] < i && kept@[j]
                    == before[origin[j]] && before[origin[j]].available_at > now,
            forall|j: int, k: int| 0 <= j < k < origin.len() ==> origin[j] < origin[k],
            forall|m: int|
                0 <= m < i && (#[trigger] before[m]).available_at > now ==> exists|j: int|
                    0 <= j < origin.len() && #[trigger] origin[j] == m,
        decreases before.len() - i,
    {
        let row = store.cooldowns[i];
        if row.available_at > now {
            kept.push(row);
            proof {
                let ghost earlier = origin;
                origin = origin.push(i as int);
                assert forall|m: int|
                    0 <= m < i + 1 && (#[trigger] before[m]).available_at > now implies exists|
                    j: int,
                | 0 <= j < origin.len() && #[trigger] origin[j] == m by {
                    if m < i {
                        let j = choose|j: int| 0 <= j < earlier.len() && #[trigger] earlier[j] == m;
                        assert(origin[j] == m);
                    } else {
                        assert(origin[earlier.len() as int] == m);
                    }
                }
            }
        }
        i = i + 1;
    }
    let removed = store.cooldowns.len() - kept.len();
    proof {
        assert forall|j: int, k: int| 0 <= j < k < kept@.len() implies kept@[j].key()
            != kept@[k].key() by {
            assert(before[origin[j]].key() != before[origin[k]].key());
        }
        let swept = old(store)@.sweep(now).cooldowns;
        let new_map = rows_to_map(kept@);
        assert forall|key: (Id, Id)| #[trigger]
            new_map.dom().contains(key) implies swept.dom().contains(key) && swept[key]
            == new_map[key] by {
            lemma_row_bound(kept@, key);
            let j = choose|j: int| 0 <= j < kept@.len() && (#[trigger] kept@[j]).key() == key;
            lemma_row_lookup(kept@, j);
            lemma_row_lookup(before, origin[j]);
        }
        assert forall|key: (Id, Id)| #[trigger]
            swept.dom().contains(key) implies new_map.dom().contains(key) by {
            lemma_row_bound(before, key);
            let m = choose|m: int| 0 <= m < before.len() && (#[trigger] before[m]).key() == key;
            lemma_row_lookup(before, m);
            let j = choose|j: int| 0 <= j < origin.len() && #[trigger] origin[j] == m;
            lemma_row_lookup(kept@, j);
        }
        assert(new_map =~= swept);
        lemma_row_count(before);
        lemma_row_count(kept@);
    }
    store.cooldowns = kept;
    proof {
        store.lemma_unfold();
    }
    removed as u64
}

} // verus!
