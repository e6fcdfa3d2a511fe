//! Completion records: how often a character has completed an action.

use vstd::prelude::*;
use crate::catalog::{Id, Timestamp};
use crate::character::CompletedAction;
use crate::keyed::{lemma_row_lookup, lemma_row_push, lemma_row_update, Keyed};
use crate::store::CharacterStore;

verus! {

/// How often the character has completed the action: the count of its
/// record, and zero where it has none.
pub fn times_completed(store: &CharacterStore, character_id: Id, action_id: Id) -> (times: i32)
    requires
        store.wf(),
    ensures
        times == store@.times_completed(character_id, action_id),
{
    match store.find_completed(character_id, action_id) {
        Some(i) => store.completed[i].times_completed,
        None => 0,
    }
}

/// Records one more completion of the action at `now`: the count of the
/// record grows by one and its time becomes `now`; a first completion makes
/// the record.
pub fn record_completed_action(
    store: &mut CharacterStore,
    character_id: Id,
    action_id: Id,
    now: Timestamp,
) -> (record: CompletedAction)
    requires
        old(store).wf(),
    ensures
        final(store).wf(),
        final(store)@ == old(store)@.record_completion(character_id, action_id, now),
        final(store)@.completed[(character_id, action_id)] == record,
{
    let ghost before = store.completed@;
    proof {
        store.lemma_unfold();
    }
    let record = match store.find_completed(character_id, action_id) {
        Some(i) => {
            let times = store.completed[i].times_completed;
            let record = CompletedAction {
                character_id,
                action_id,
                completed_at: now,
                times_completed: if times < i32::MAX {
                    times + 1
                } else {
                    i32::MAX
                },
            };
            proof {
                lemma_row_update(before, i as int, record);
            }
            store.completed[i] = record;
            record
        },
        None => {
            let record = CompletedAction {
                character_id,
                action_id,
                completed_at: now,
                times_completed: 1,
            };
            proof {
                assert forall|j: int| 0 <= j < before.len() implies (#[trigger] before[j]).key()
                    != record.key() by {
                    if before[j].key() == record.key() {
                        lemma_row_lookup(before, j);
                    }
                }
                lemma_row_push(before, record);
            }
            store.completed.push(record);
            record
        },
    };
    proof {
        store.lemma_unfold();
    }
    record
}

} // verus!
