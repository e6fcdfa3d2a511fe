//! Inventory lines: putting items in and taking them out.

use vstd::prelude::*;
use crate::catalog::Id;
use crate::character::InventoryItem;
use crate::keyed::{lemma_row_lookup, lemma_row_push, lemma_row_remove, lemma_row_update, Keyed};
use crate::store::{loose_line, remaining_quantity, CharacterStore};

verus! {

/// Changes the loose line of an item by `delta` and returns the line as it
/// is afterwards, if there still is one.
pub fn adjust_item_quantity(
    store: &mut CharacterStore,
    character_id: Id,
    item_id: Id,
    delta: i64,
) -> (line: Option<InventoryItem>)
    requires
        old(store).wf(),
    ensures
        final(store).wf(),
        final(store)@ == old(store)@.adjust_item(character_id, item_id, delta as int),
        final(store)@.held(character_id, item_id) == remaining_quantity(
            old(store)@.held(character_id, item_id) + delta,
        ),
        final(store)@.same_but_line(old(store)@, loose_line(character_id, item_id)),
        match line {
            Some(l) => final(store)@.inventory.dom().contains(loose_line(character_id, item_id))
                && final(store)@.inventory[loose_line(character_id, item_id)] == l,
            None => !final(store)@.inventory.dom().contains(loose_line(character_id, item_id)),
        },
{
    let ghost before = store.inventory@;
    let ghost key = loose_line(character_id, item_id);
    proof {
        store.lemma_unfold();
    }
    let line = match store.find_loose_line(character_id, item_id) {
        Some(i) => {
            let had = store.inventory[i].quantity;
            if delta <= -(had as i64) {
                proof {
                    lemma_row_remove(before, i as int);
                    assert forall|j: int| 0 <= j < before.remove(i as int).len() implies (
                    #[trigger] before.remove(i as int)[j]).valid() by {
                        if j < i {
                            assert(before[j].valid());
                        } else {
                            assert(before[j + 1].valid());
                        }
                    }
                }
                store.inventory.remove(i);
                None
            } else {
                let quantity: i32 = if delta > (i32::MAX - had) as i64 {
                    i32::MAX
                } else {
                    (had as i64 + delta) as i32
                };
                let equipped = store.inventory[i].equipped;
                let ghost changed = InventoryItem { quantity, ..before[i as int] };
                proof {
                    lemma_row_update(before, i as int, changed);
                    assert forall|j: int| 0 <= j < before.len() implies (#[trigger] before.update(
                        i as int,
                        changed,
                    )[j]).valid() by {
                        assert(before[j].valid());
                    }
                }
                store.inventory[i].quantity = quantity;
                Some(InventoryItem { character_id, item_id, quantity, equipped, slot: None })
            }
        },
        None => {
            if delta <= 0 {
                assert(store@.inventory.remove(key) =~= store@.inventory);
                None
            } else {
                let quantity: i32 = if delta > i32::MAX as i64 {
                    i32::MAX
                } else {
                    delta as i32
                };
                let ghost made = InventoryItem {
                    character_id,
                    item_id,
                    quantity,
                    equipped: false,
                    slot: None,
                };
                proof {
                    assert forall|j: int| 0 <= j < before.len() implies (#[trigger] before[j]).key()
                        != made.key() by {
                        if before[j].key() == made.key() {
                            lemma_row_lookup(before, j);
                        }
                    }
                    lemma_row_push(before, made);
                    assert forall|j: int| 0 <= j < before.len() + 1 implies (#[trigger] before.push(
                        made,
                    )[j]).valid() by {
                        if j < before.len() {
                            assert(before[j].valid());
                        }
                    }
                }
                store.inventory.push(
                    InventoryItem { character_id, item_id, quantity, equipped: false, slot: None },
                );
                Some(InventoryItem { character_id, item_id, quantity, equipped: false, slot: None })
            }
        },
    };
    proof {
        store.lemma_unfold();
    }
    line
}

/// Add item to character's inventory: the unequipped line of the item grows
/// by `quantity`, and is made where the character has none. Every other line
/// stays as it is. Returns the line as it is afterwards.
pub fn add_item_to_inventory(
    store: &mut CharacterStore,
    character_id: Id,
    item_id: Id,
    quantity: i32,
) -> (line: Option<InventoryItem>)
    requires
        old(store).wf(),
    ensures
        final(store).wf(),
        final(store)@ == old(store)@.adjust_item(character_id, item_id, quantity as int),
        final(store)@.held(character_id, item_id) == remaining_quantity(
            old(store)@.held(character_id, item_id) + quantity,
        ),
        final(store)@.same_but_line(old(store)@, loose_line(character_id, item_id)),
        match line {
            Some(l) => final(store)@.inventory.dom().contains(loose_line(character_id, item_id))
                && final(store)@.inventory[loose_line(character_id, item_id)] == l,
            None => !final(store)@.inventory.dom().contains(loose_line(character_id, item_id)),
        },
{
    adjust_item_quantity(store, character_id, item_id, quantity as i64)
}

/// Remove item from character's inventory: the unequipped line of the item
/// shrinks by `quantity`, and a line that would hold no item is taken out.
/// Equipped lines, the lines of other items and the lines of other
/// characters stay as they are. So where the character holds `k` of the item
/// unequipped and `quantity` lies from one to below `k`, the line stays and
/// holds `k - quantity`.
pub fn remove_item_from_inventory(
    store: &mut CharacterStore,
    character_id: Id,
    item_id: Id,
    quantity: i32,
)
    requires
        old(store).wf(),
    ensures
        final(store).wf(),
        final(store)@ == old(store)@.adjust_item(character_id, item_id, -(quantity as int)),
        final(store)@.held(character_id, item_id) == remaining_quantity(
            old(store)@.held(character_id, item_id) - quantity,
        ),
        final(store)@.same_but_line(old(store)@, loose_line(character_id, item_id)),
        0 < quantity < old(store)@.held(character_id, item_id) ==> {
            &&& final(store)@.inventory.dom() == old(store)@.inventory.dom()
            &&& final(store)@.inventory[loose_line(character_id, item_id)] == (InventoryItem {
                quantity: (old(store)@.held(character_id, item_id) - quantity) as i32,
                ..old(store)@.inventory[loose_line(character_id, item_id)]
            })
        },
{
    let _ = adjust_item_quantity(store, character_id, item_id, -(quantity as i64));
}

/// How many of an item the character holds unequipped.
pub fn held_quantity(store: &CharacterStore, character_id: Id, item_id: Id) -> (held: i32)
    requires
        store.wf(),
    ensures
        held == store@.held(character_id, item_id),
{
    match store.find_loose_line(character_id, item_id) {
        Some(i) => store.inventory[i].quantity,
        None => 0,
    }
}

} // verus!
