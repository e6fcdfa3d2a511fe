//! The character state store: the characters with their cooldowns, completed
//! actions and inventory lines, held in memory.
//!
//! A store is specified by its view, four finite maps from key to row. The
//! operations of this module say how they change the view.

use vstd::prelude::*;
use crate::catalog::{Id, Timestamp};
use crate::character::{ActionCooldown, Character, CompletedAction, InventoryItem};
use crate::keyed::{
    all_keys_distinct, lemma_row_absent, lemma_row_bound, lemma_row_lookup, rows_distinct,
    rows_to_map, Keyed,
};
use crate::text::{lemma_same_name_symmetric, names_match, same_name};

verus! {

/// The key of an inventory line: character, item, and the slot's name where
/// the line is in a slot.
pub type LineKey = (Id, Id, Option<Seq<char>>);

/// What a store holds, as maps from key to row.
pub struct StoreView {
    /// The characters by id.
    pub characters: Map<Id, Character>,
    /// The cooldowns by character and action.
    pub cooldowns: Map<(Id, Id), ActionCooldown>,
    /// The completion records by character and action.
    pub completed: Map<(Id, Id), CompletedAction>,
    /// The inventory lines by character, item and slot.
    pub inventory: Map<LineKey, InventoryItem>,
}

/// The key of the loose line of an item: the line that is in no slot.
pub open spec fn loose_line(character_id: Id, item_id: Id) -> LineKey {
    (character_id, item_id, None)
}

/// What a line holds once its quantity has come to `quantity`: nothing
/// where that is not positive, and no more than a line can hold.
pub open spec fn remaining_quantity(quantity: int) -> int {
    if quantity <= 0 {
        0
    } else {
        capped_quantity(quantity) as int
    }
}

/// A quantity cut down to what a line can hold.
pub open spec fn capped_quantity(quantity: int) -> i32 {
    if quantity > i32::MAX {
        i32::MAX
    } else {
        quantity as i32
    }
}

impl StoreView {
    /// Every row is bound to its own key, every character is valid, no two
    /// characters have the same name but for ASCII case, and every inventory
    /// line is valid: it holds at least one item and is equipped if and only
    /// if it is in a slot.
    pub open spec fn valid(self) -> bool {
        &&& forall|id: Id| #[trigger]
            self.characters.dom().contains(id) ==> self.characters[id].id == id
                && self.characters[id].valid()
        &&& forall|a: Id, b: Id|
            (#[trigger] self.characters.dom().contains(a))
                && (#[trigger] self.characters.dom().contains(b)) && a != b ==> !same_name(
                self.characters[a].name@,
                self.characters[b].name@,
            )
        &&& forall|k: (Id, Id)| #[trigger]
            self.cooldowns.dom().contains(k) ==> self.cooldowns[k].key() == k
        &&& forall|k: (Id, Id)| #[trigger]
            self.completed.dom().contains(k) ==> self.completed[k].key() == k
        &&& forall|k: LineKey| #[trigger]
            self.inventory.dom().contains(k) ==> self.inventory[k].key() == k
                && self.inventory[k].valid()
    }

    /// The character with this id, if there is one.
    pub open spec fn character(self, id: Id) -> Option<Character> {
        if self.characters.dom().contains(id) {
            Some(self.characters[id])
        } else {
            None
        }
    }

    /// When the cooldown of the action ends for the character, if it has one.
    pub open spec fn cooldown_until(self, character_id: Id, action_id: Id) -> Option<Timestamp> {
        if self.cooldowns.dom().contains((character_id, action_id)) {
            Some(self.cooldowns[(character_id, action_id)].available_at)
        } else {
            None
        }
    }

    /// Whether a cooldown blocks the action at `now`. A cooldown that has
    /// ended counts like one that is not there.
    pub open spec fn on_cooldown(self, character_id: Id, action_id: Id, now: Timestamp) -> bool {
        match self.cooldown_until(character_id, action_id) {
            Some(available_at) => available_at > now,
            None => false,
        }
    }

    /// How often the character has completed the action.
    pub open spec fn times_completed(self, character_id: Id, action_id: Id) -> int {
        if self.completed.dom().contains((character_id, action_id)) {
            self.completed[(character_id, action_id)].times_completed as int
        } else {
            0
        }
    }

    /// How many of the item the character holds unequipped: the quantity of
    /// the loose line of the item, which in a valid store is the only line
    /// of the item that is not equipped.
    pub open spec fn held(self, character_id: Id, item_id: Id) -> int {
        if self.inventory.dom().contains(loose_line(character_id, item_id)) {
            self.inventory[loose_line(character_id, item_id)].quantity as int
        } else {
            0
        }
    }

    /// Whether this store is `before` but for the inventory line under
    /// `key`: the characters, cooldowns and completion records are the same,
    /// and so is every other inventory line.
    pub open spec fn same_but_line(self, before: StoreView, key: LineKey) -> bool {
        &&& self.characters == before.characters
        &&& self.cooldowns == before.cooldowns
        &&& self.completed == before.completed
        &&& forall|k: LineKey|
            k != key ==> (#[trigger] self.inventory.dom().contains(k))
                == before.inventory.dom().contains(k)
        &&& forall|k: LineKey|
            k != key && #[trigger] self.inventory.dom().contains(k) ==> self.inventory[k]
                == before.inventory[k]
    }

    /// The store with the character put in place of the one with its id.
    pub open spec fn put_character(self, character: Character) -> StoreView {
        StoreView { characters: self.characters.insert(character.id, character), ..self }
    }

    /// The store with the cooldown of the action set to end at
    /// `available_at`, whatever it was before.
    pub open spec fn set_cooldown(
        self,
        character_id: Id,
        action_id: Id,
        available_at: Timestamp,
    ) -> StoreView {
        StoreView {
            cooldowns: self.cooldowns.insert(
                (character_id, action_id),
                ActionCooldown { character_id, action_id, available_at },
            ),
            ..self
        }
    }

    /// The store without the cooldowns that have ended at `now`.
    pub open spec fn sweep(self, now: Timestamp) -> StoreView {
        StoreView {
            cooldowns: Map::new(
                |k: (Id, Id)|
                    self.cooldowns.dom().contains(k) && self.cooldowns[k].available_at > now,
                |k: (Id, Id)| self.cooldowns[k],
            ),
            ..self
        }
    }

    /// The store with one more completion of the action recorded at `now`.
    /// The count stops at the largest number it can hold.
    pub open spec fn record_completion(
        self,
        character_id: Id,
        action_id: Id,
        now: Timestamp,
    ) -> StoreView {
        StoreView {
            completed: self.completed.insert(
                (character_id, action_id),
                CompletedAction {
                    character_id,
                    action_id,
                    completed_at: now,
                    times_completed: capped_quantity(
                        self.times_completed(character_id, action_id) + 1,
                    ),
                },
            ),
            ..self
        }
    }

    /// The store with the loose line of the item changed by `delta`. A line
    /// that would hold no item is taken out, a missing line is made where the
    /// quantity is positive, and the quantity stops at the largest number a
    /// line can hold.
    pub open spec fn adjust_item(self, character_id: Id, item_id: Id, delta: int) -> StoreView {
        let key = loose_line(character_id, item_id);
        let quantity = self.held(character_id, item_id) + delta;
        if quantity <= 0 {
            StoreView { inventory: self.inventory.remove(key), ..self }
        } else if self.inventory.dom().contains(key) {
            StoreView {
                inventory: self.inventory.insert(
                    key,
                    InventoryItem { quantity: capped_quantity(quantity), ..self.inventory[key] },
                ),
                ..self
            }
        } else {
            StoreView {
                inventory: self.inventory.insert(
                    key,
                    InventoryItem {
                        character_id,
                        item_id,
                        quantity: capped_quantity(quantity),
                        equipped: false,
                        slot: None,
                    },
                ),
                ..self
            }
        }
    }
}

/// No two characters have the same name but for ASCII case.
pub open spec fn names_distinct(characters: Seq<Character>) -> bool {
    forall|i: int, j: int|
        0 <= i < j < characters.len() ==> !same_name(
            (#[trigger] characters[i]).name@,
            (#[trigger] characters[j]).name@,
        )
}

/// Rows from which a store can be built: keys are unique within each table,
/// every character is valid and has a name of its own, and every inventory
/// line is valid.
pub open spec fn store_rows_ok(
    characters: Seq<Character>,
    cooldowns: Seq<ActionCooldown>,
    completed: Seq<CompletedAction>,
    inventory: Seq<InventoryItem>,
) -> bool {
    &&& rows_distinct(characters)
    &&& rows_distinct(cooldowns)
    &&& rows_distinct(completed)
    &&& rows_distinct(inventory)
    &&& names_distinct(characters)
    &&& forall|i: int| 0 <= i < characters.len() ==> (#[trigger] characters[i]).valid()
    &&& forall|i: int| 0 <= i < inventory.len() ==> (#[trigger] inventory[i]).valid()
}

/// Tests whether no two characters have the same name but for ASCII case.
pub fn names_all_distinct(characters: &Vec<Character>) -> (distinct: bool)
    ensures
        distinct == names_distinct(characters@),
{
    let mut i: usize = 0;
    while i < characters.len()
        invariant
            i <= characters@.len(),
            forall|a: int, b: int|
                0 <= a < b < i ==> !same_name(
                    (#[trigger] characters@[a]).name@,
                    (#[trigger] characters@[b]).name@,
                ),
        decreases characters@.len() - i,
    {
        let mut j: usize = 0;
        while j < i
            invariant
                j <= i < characters@.len(),
                forall|a: int|
                    0 <= a < j ==> !same_name(
                        (#[trigger] characters@[a]).name@,
                        characters@[i as int].name@,
                    ),
            decreases i - j,
        {
            if names_match(characters[j].name.as_str(), characters[i].name.as_str()) {
                return false;
            }
            j = j + 1;
        }
        i = i + 1;
    }
    true
}

/// The state of all characters.
#[derive(Debug, Clone)]
pub struct CharacterStore {
    pub(crate) characters: Vec<Character>,
    pub(crate) cooldowns: Vec<ActionCooldown>,
    pub(crate) completed: Vec<CompletedAction>,
    pub(crate) inventory: Vec<InventoryItem>,
}

impl View for CharacterStore {
    type V = StoreView;

    closed spec fn view(&self) -> StoreView {
        StoreView {
            characters: rows_to_map(self.characters@),
            cooldowns: rows_to_map(self.cooldowns@),
            completed: rows_to_map(self.completed@),
            inventory: rows_to_map(self.inventory@),
        }
    }
}

impl CharacterStore {
    /// The invariant of a store: what [`store_rows_ok`] asks of its rows.
    pub closed spec fn wf(self) -> bool {
        store_rows_ok(self.characters@, self.cooldowns@, self.completed@, self.inventory@)
    }

    /// What the invariant and the view say of the rows.
    pub(crate) proof fn lemma_unfold(self)
        ensures
            self.wf() == store_rows_ok(
                self.characters@,
                self.cooldowns@,
                self.completed@,
                self.inventory@,
            ),
            self@.characters == rows_to_map(self.characters@),
            self@.cooldowns == rows_to_map(self.cooldowns@),
            self@.completed == rows_to_map(self.completed@),
            self@.inventory == rows_to_map(self.inventory@),
    {
    }

    /// The view of a store that meets its invariant is valid.
    pub proof fn lemma_view_valid(self)
        requires
            self.wf(),
        ensures
            self@.valid(),
            self@.characters.dom().finite(),
            self@.cooldowns.dom().finite(),
            self@.completed.dom().finite(),
            self@.inventory.dom().finite(),
    {
        crate::keyed::lemma_row_count(self.characters@);
        crate::keyed::lemma_row_count(self.cooldowns@);
        crate::keyed::lemma_row_count(self.completed@);
        crate::keyed::lemma_row_count(self.inventory@);
        assert forall|id: Id| #[trigger] self@.characters.dom().contains(id) implies
            self@.characters[id].id == id && self@.characters[id].valid() by {
            lemma_row_bound(self.characters@, id);
            let i = choose|i: int|
                0 <= i < self.characters@.len() && (#[trigger] self.characters@[i]).key() == id;
            lemma_row_lookup(self.characters@, i);
        }
        assert forall|a: Id, b: Id|
            (#[trigger] self@.characters.dom().contains(a))
                && (#[trigger] self@.characters.dom().contains(b)) && a != b implies !same_name(
            self@.characters[a].name@,
            self@.characters[b].name@,
        ) by {
            lemma_row_bound(self.characters@, a);
            lemma_row_bound(self.characters@, b);
            let i = choose|i: int|
                0 <= i < self.characters@.len() && (#[trigger] self.characters@[i]).key() == a;
            let j = choose|j: int|
                0 <= j < self.characters@.len() && (#[trigger] self.characters@[j]).key() == b;
            lemma_row_lookup(self.characters@, i);
            lemma_row_lookup(self.characters@, j);
            lemma_same_name_symmetric(self.characters@[i].name@, self.characters@[j].name@);
        }
        assert forall|k: (Id, Id)| #[trigger] self@.cooldowns.dom().contains(k) implies
            self@.cooldowns[k].key() == k by {
            lemma_row_bound(self.cooldowns@, k);
        }
        assert forall|k: (Id, Id)| #[trigger] self@.completed.dom().contains(k) implies
            self@.completed[k].key() == k by {
            lemma_row_bound(self.completed@, k);
        }
        assert forall|k: LineKey| #[trigger] self@.inventory.dom().contains(k) implies
            self@.inventory[k].key() == k && self@.inventory[k].valid() by {
            lemma_row_bound(self.inventory@, k);
            let i = choose|i: int|
                0 <= i < self.inventory@.len() && (#[trigger] self.inventory@[i]).key() == k;
            lemma_row_lookup(self.inventory@, i);
        }
    }

    /// A store without rows.
    pub fn new() -> (store: Self)
        ensures
            store.wf(),
            store@.characters == Map::<Id, Character>::empty(),
            store@.cooldowns == Map::<(Id, Id), ActionCooldown>::empty(),
            store@.completed == Map::<(Id, Id), CompletedAction>::empty(),
            store@.inventory == Map::<LineKey, InventoryItem>::empty(),
    {
        CharacterStore {
            characters: Vec::new(),
            cooldowns: Vec::new(),
            completed: Vec::new(),
            inventory: Vec::new(),
        }
    }

    /// Builds a store from its rows. The rows are refused where two rows of
    /// a table share a key, two characters share a name, a character is not
    /// valid, or an inventory line is not valid: it holds no item, is
    /// equipped without a slot, or is in a slot without being equipped.
    pub fn from_rows(
        characters: Vec<Character>,
        cooldowns: Vec<ActionCooldown>,
        completed: Vec<CompletedAction>,
        inventory: Vec<InventoryItem>,
    ) -> (store: Option<Self>)
        ensures
            store is Some <==> store_rows_ok(characters@, cooldowns@, completed@, inventory@),
            store matches Some(s) ==> {
                &&& s.wf()
                &&& s@.characters == rows_to_map(characters@)
                &&& s@.cooldowns == rows_to_map(cooldowns@)
                &&& s@.completed == rows_to_map(completed@)
                &&& s@.inventory == rows_to_map(inventory@)
            },
    {
        if !all_keys_distinct(&characters) || !all_keys_distinct(&cooldowns) || !all_keys_distinct(
            &completed,
        ) || !all_keys_distinct(&inventory) {
            return None;
        }
        if !names_all_distinct(&characters) {
            return None;
        }
        let mut i: usize = 0;
        while i < characters.len()
            invariant
                i <= characters@.len(),
                forall|j: int| 0 <= j < i ==> (#[trigger] characters@[j]).valid(),
            decreases characters@.len() - i,
        {
            if !characters[i].is_valid() {
                return None;
            }
            i = i + 1;
        }
        let mut k: usize = 0;
        while k < inventory.len()
            invariant
                k <= inventory@.len(),
                forall|j: int| 0 <= j < k ==> (#[trigger] inventory@[j]).valid(),
            decreases inventory@.len() - k,
        {
            if !inventory[k].is_valid() {
                return None;
            }
            k = k + 1;
        }
        Some(CharacterStore { characters, cooldowns, completed, inventory })
    }

    /// The characters, one row each.
    pub fn character_rows(&self) -> (rows: &Vec<Character>)
        ensures
            rows_to_map(rows@) == self@.characters,
            self.wf() ==> rows_distinct(rows@),
    {
        &self.characters
    }

    /// The cooldowns, one row each.
    pub fn cooldown_rows(&self) -> (rows: &Vec<ActionCooldown>)
        ensures
            rows_to_map(rows@) == self@.cooldowns,
            self.wf() ==> rows_distinct(rows@),
    {
        &self.cooldowns
    }

    /// The completion records, one row each.
    pub fn completed_rows(&self) -> (rows: &Vec<CompletedAction>)
        ensures
            rows_to_map(rows@) == self@.completed,
            self.wf() ==> rows_distinct(rows@),
    {
        &self.completed
    }

    /// The inventory lines, one row each.
    pub fn inventory_rows(&self) -> (rows: &Vec<InventoryItem>)
        ensures
            rows_to_map(rows@) == self@.inventory,
            self.wf() ==> rows_distinct(rows@),
    {
        &self.inventory
    }

    /// The place of the character with this id among the rows.
    pub(crate) fn find_character(&self, character_id: Id) -> (place: Option<usize>)
        requires
            self.wf(),
        ensures
            match place {
                Some(i) => i < self.characters@.len() && self.characters@[i as int].id
                    == character_id && self@.character(character_id) == Some(
                    self.characters@[i as int],
                ),
                None => self@.character(character_id) is None,
            },
    {
        let mut i: usize = 0;
        while i < self.characters.len()
            invariant
                self.wf(),
                i <= self.characters@.len(),
                forall|j: int|
                    0 <= j < i ==> (#[trigger] self.characters@[j]).key() != character_id,
            decreases self.characters@.len() - i,
        {
            if self.characters[i].id == character_id {
                proof {
                    lemma_row_lookup(self.characters@, i as int);
                }
                return Some(i);
            }
            i = i + 1;
        }
        proof {
            lemma_row_absent(self.characters@, character_id);
        }
        None
    }

    /// The place of a character that the store holds.
    pub(crate) fn character_place(&self, character_id: Id) -> (place: usize)
        requires
            self.wf(),
            self@.characters.dom().contains(character_id),
        ensures
            place < self.characters@.len(),
            self.characters@[place as int] == self@.characters[character_id],
    {
        proof {
            lemma_row_bound(self.characters@, character_id);
        }
        let count = self.characters.len();
        let mut i: usize = 0;
        while self.characters[i].id != character_id
            invariant
                self.wf(),
                i < count == self.characters@.len(),
                exists|j: int|
                    i <= j < self.characters@.len() && (#[trigger] self.characters@[j]).key()
                        == character_id,
            decreases self.characters@.len() - i,
        {
            i = i + 1;
        }
        proof {
            lemma_row_lookup(self.characters@, i as int);
        }
        i
    }

    /// The place of the cooldown of the action for the character.
    pub(crate) fn find_cooldown(&self, character_id: Id, action_id: Id) -> (place: Option<usize>)
        requires
            self.wf(),
        ensures
            match place {
                Some(i) => i < self.cooldowns@.len() && self.cooldowns@[i as int].key() == (
                    character_id,
                    action_id,
                ) && self@.cooldowns.dom().contains((character_id, action_id))
                    && self@.cooldowns[(character_id, action_id)] == self.cooldowns@[i as int],
                None => !self@.cooldowns.dom().contains((character_id, action_id)),
            },
    {
        let mut i: usize = 0;
        while i < self.cooldowns.len()
            invariant
                self.wf(),
                i <= self.cooldowns@.len(),
                forall|j: int|
                    0 <= j < i ==> (#[trigger] self.cooldowns@[j]).key() != (character_id, action_id),
            decreases self.cooldowns@.len() - i,
        {
            if self.cooldowns[i].character_id == character_id && self.cooldowns[i].action_id
                == action_id {
                proof {
                    lemma_row_lookup(self.cooldowns@, i as int);
                }
                return Some(i);
            }
            i = i + 1;
        }
        proof {
            lemma_row_absent(self.cooldowns@, (character_id, action_id));
        }
        None
    }

    /// The place of the completion record of the action for the character.
    pub(crate) fn find_completed(&self, character_id: Id, action_id: Id) -> (place: Option<usize>)
        requires
            self.wf(),
        ensures
            match place {
                Some(i) => i < self.completed@.len() && self.completed@[i as int].key() == (
                    character_id,
                    action_id,
                ) && self@.completed.dom().contains((character_id, action_id))
                    && self@.completed[(character_id, action_id)] == self.completed@[i as int],
                None => !self@.completed.dom().contains((character_id, action_id)),
            },
    {
        let mut i: usize = 0;
        while i < self.completed.len()
            invariant
                self.wf(),
                i <= self.completed@.len(),
                forall|j: int|
                    0 <= j < i ==> (#[trigger] self.completed@[j]).key() != (character_id, action_id),
            decreases self.completed@.len() - i,
        {
            if self.completed[i].character_id == character_id && self.completed[i].action_id
                == action_id {
                proof {
                    lemma_row_lookup(self.completed@, i as int);
                }
                return Some(i);
            }
            i = i + 1;
        }
        proof {
            lemma_row_absent(self.completed@, (character_id, action_id));
        }
        None
    }

    /// The place of the loose line of the item for the character.
    pub(crate) fn find_loose_line(&self, character_id: Id, item_id: Id) -> (place: Option<usize>)
        requires
            self.wf(),
        ensures
            match place {
                Some(i) => i < self.inventory@.len() && self.inventory@[i as int].key()
                    == loose_line(character_id, item_id) && self@.inventory.dom().contains(
                    loose_line(character_id, item_id),
                ) && self@.inventory[loose_line(character_id, item_id)]
                    == self.inventory@[i as int],
                None => !self@.inventory.dom().contains(loose_line(character_id, item_id)),
            },
    {
        let mut i: usize = 0;
        while i < self.inventory.len()
            invariant
                self.wf(),
                i <= self.inventory@.len(),
                forall|j: int|
                    0 <= j < i ==> (#[trigger] self.inventory@[j]).key() != loose_line(
                        character_id,
                        item_id,
                    ),
            decreases self.inventory@.len() - i,
        {
            if self.inventory[i].character_id == character_id && self.inventory[i].item_id
                == item_id && self.inventory[i].slot.is_none() {
                proof {
                    lemma_row_lookup(self.inventory@, i as int);
                }
                return Some(i);
            }
            i = i + 1;
        }
        proof {
            lemma_row_absent(self.inventory@, loose_line(character_id, item_id));
        }
        None
    }
}

} // verus!
