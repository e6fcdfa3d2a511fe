//! What an operation changed in a store: the rows to write and the rows to
//! delete.
//!
//! A caller that keeps the rows in a database reads them into a store, lets
//! an operation work on a copy, and asks this module what to write back.

use vstd::prelude::*;
use crate::character::{ActionCooldown, Character, CompletedAction, InventoryItem};
use crate::keyed::{lemma_row_bound, lemma_row_lookup, rows_distinct, rows_to_map, Keyed};
use crate::store::{loose_line, CharacterStore};

verus! {

/// A row of plain numbers: it can be copied, and two can be tested for being
/// the same.
pub trait PlainRow: Keyed + Copy {
    /// Whether two rows are the same.
    fn same_row(&self, other: &Self) -> (same: bool)
        ensures
            same == (*self == *other),
    ;
}

impl PlainRow for ActionCooldown {
    fn same_row(&self, other: &Self) -> (same: bool) {
        self.character_id == other.character_id && self.action_id == other.action_id
            && self.available_at == other.available_at
    }
}

impl PlainRow for CompletedAction {
    fn same_row(&self, other: &Self) -> (same: bool) {
        self.character_id == other.character_id && self.action_id == other.action_id
            && self.completed_at == other.completed_at && self.times_completed
            == other.times_completed
    }
}

/// Whether the map binds the key to the row.
pub open spec fn binds<K, R>(map: Map<K, R>, key: K, row: R) -> bool {
    map.dom().contains(key) && map[key] == row
}

/// Whether some row has the key.
pub open spec fn key_held<R: Keyed>(rows: Seq<R>, key: R::Key) -> bool {
    exists|i: int| 0 <= i < rows.len() && (#[trigger] rows[i]).key() == key
}

/// Among rows with distinct keys, the rows are what the map binds.
pub proof fn lemma_rows_are_bound<R: Keyed>(rows: Seq<R>)
    requires
        rows_distinct(rows),
    ensures
        forall|row: R| #[trigger] rows.contains(row) <==> binds(rows_to_map(rows), row.key(), row),
        forall|key: R::Key| #[trigger] key_held(rows, key) <==> rows_to_map(rows).dom().contains(key),
{
    assert forall|row: R| #[trigger] rows.contains(row) <==> binds(
        rows_to_map(rows),
        row.key(),
        row,
    ) by {
        if rows.contains(row) {
            let i = choose|i: int| 0 <= i < rows.len() && rows[i] == row;
            lemma_row_lookup(rows, i);
        }
        if binds(rows_to_map(rows), row.key(), row) {
            lemma_row_bound(rows, row.key());
            let i = choose|i: int| 0 <= i < rows.len() && (#[trigger] rows[i]).key() == row.key();
            lemma_row_lookup(rows, i);
            assert(rows[i] == row);
        }
    }
    assert forall|key: R::Key| #[trigger] key_held(rows, key) <==> rows_to_map(
        rows,
    ).dom().contains(key) by {
        if key_held(rows, key) {
            let i = choose|i: int| 0 <= i < rows.len() && (#[trigger] rows[i]).key() == key;
            lemma_row_lookup(rows, i);
        }
        if rows_to_map(rows).dom().contains(key) {
            lemma_row_bound(rows, key);
        }
    }
}

/// Tests whether the rows hold the row as it is.
pub fn holds_row<R: PlainRow>(rows: &Vec<R>, row: &R) -> (held: bool)
    ensures
        held == rows@.contains(*row),
{
    let mut i: usize = 0;
    while i < rows.len()
        invariant
            i <= rows@.len(),
            forall|j: int| 0 <= j < i ==> rows@[j] != *row,
        decreases rows@.len() - i,
    {
        if rows[i].same_row(row) {
            return true;
        }
        i = i + 1;
    }
    false
}

/// Tests whether the rows hold a row with the key of the given row.
pub fn holds_key<R: Keyed>(rows: &Vec<R>, row: &R) -> (held: bool)
    ensures
        held == key_held(rows@, row.key()),
{
    let mut i: usize = 0;
    while i < rows.len()
        invariant
            i <= rows@.len(),
            forall|j: int| 0 <= j < i ==> (#[trigger] rows@[j]).key() != row.key(),
        decreases rows@.len() - i,
    {
        if rows[i].same_key(row) {
            return true;
        }
        i = i + 1;
    }
    false
}

/// The rows of `after` that `before` does not hold as they are: the rows to
/// write.
pub fn rows_to_write<R: PlainRow>(before: &Vec<R>, after: &Vec<R>) -> (rows: Vec<R>)
    ensures
        forall|row: R| #[trigger] rows@.contains(row) <==> after@.contains(row) && !before@.contains(row),
{
    let mut rows: Vec<R> = Vec::new();
    let mut i: usize = 0;
    while i < after.len()
        invariant
            i <= after@.len(),
            forall|row: R| #[trigger]
                rows@.contains(row) <==> after@.take(i as int).contains(row) && !before@.contains(
                    row,
                ),
        decreases after@.len() - i,
    {
        let row = after[i];
        let ghost seen = after@.take(i as int);
        let ghost listed = rows@;
        proof {
            assert(after@.take(i + 1) =~= seen.push(row));
            lemma_push_contains(seen, row);
        }
        if !holds_row(before, &row) {
            rows.push(row);
            proof {
                lemma_push_contains(listed, row);
            }
        }
        i = i + 1;
    }
    assert(after@.take(i as int) =~= after@);
    rows
}

/// The rows of `before` whose key no row of `after` has: the rows to
/// delete.
pub fn rows_to_delete<R: PlainRow>(before: &Vec<R>, after: &Vec<R>) -> (rows: Vec<R>)
    ensures
        forall|row: R| #[trigger]
            rows@.contains(row) <==> before@.contains(row) && !key_held(after@, row.key()),
{
    let mut rows: Vec<R> = Vec::new();
    let mut i: usize = 0;
    while i < before.len()
        invariant
            i <= before@.len(),
            forall|row: R| #[trigger]
                rows@.contains(row) <==> before@.take(i as int).contains(row) && !key_held(
                    after@,
                    row.key(),
                ),
        decreases before@.len() - i,
    {
        let row = before[i];
        let ghost seen = before@.take(i as int);
        let ghost listed = rows@;
        proof {
            assert(before@.take(i + 1) =~= seen.push(row));
            lemma_push_contains(seen, row);
        }
        if !holds_key(after, &row) {
            rows.push(row);
            proof {
                lemma_push_contains(listed, row);
            }
        }
        i = i + 1;
    }
    assert(before@.take(i as int) =~= before@);
    rows
}

/// A sequence with one more element holds what it held and that element.
pub proof fn lemma_push_contains<A>(s: Seq<A>, last: A)
    ensures
        forall|x: A| #[trigger] s.push(last).contains(x) <==> s.contains(x) || x == last,
{
    assert forall|x: A| #[trigger] s.push(last).contains(x) <==> s.contains(x) || x == last by {
        if s.push(last).contains(x) {
            let i = choose|i: int| 0 <= i < s.push(last).len() && s.push(last)[i] == x;
            if i < s.len() {
                assert(s[i] == x);
            }
        }
        if s.contains(x) {
            let i = choose|i: int| 0 <= i < s.len() && s[i] == x;
            assert(s.push(last)[i] == x);
        }
        if x == last {
            assert(s.push(last)[s.len() as int] == x);
        }
    }
}

/// Whether two characters are the same: the same name, character by
/// character, and the same in every other field.
pub open spec fn same_character(a: Character, b: Character) -> bool {
    a.name@ == b.name@ && (Character { name: a.name, ..b }) == a
}

/// Tests whether two characters are the same.
pub fn characters_match(a: &Character, b: &Character) -> (same: bool)
    ensures
        same == same_character(*a, *b),
{
    a.id == b.id && a.player_id == b.player_id && a.name == b.name && a.level == b.level
        && a.experience == b.experience && a.health == b.health && a.max_health == b.max_health
        && a.mana == b.mana && a.max_mana == b.max_mana && a.strength == b.strength
        && a.dexterity == b.dexterity && a.intelligence == b.intelligence && a.constitution
        == b.constitution && a.wisdom == b.wisdom && a.charisma == b.charisma && a.gold == b.gold
        && a.action_points == b.action_points && a.max_action_points == b.max_action_points
        && a.character_class == b.character_class && a.created_at == b.created_at && a.updated_at
        == b.updated_at && a.location_id == b.location_id
}

/// Copies a character.
pub fn copy_character(character: &Character) -> (copy: Character)
    ensures
        copy == *character,
{
    Character {
        id: character.id,
        player_id: character.player_id,
        name: character.name.clone(),
        level: character.level,
        experience: character.experience,
        health: character.health,
        max_health: character.max_health,
        mana: character.mana,
        max_mana: character.max_mana,
        strength: character.strength,
        dexterity: character.dexterity,
        intelligence: character.intelligence,
        constitution: character.constitution,
        wisdom: character.wisdom,
        charisma: character.charisma,
        gold: character.gold,
        action_points: character.action_points,
        max_action_points: character.max_action_points,
        character_class: character.character_class,
        created_at: character.created_at,
        updated_at: character.updated_at,
        location_id: character.location_id,
    }
}

/// What to write back after an operation on a store.
#[derive(Debug, Clone, PartialEq, Eq)]
pub struct StoreChanges {
    /// The characters to write: those that are new or not what they were.
    pub characters: Vec<Character>,
    /// The cooldowns to write.
    pub cooldowns: Vec<ActionCooldown>,
    /// The cooldowns to delete.
    pub ended_cooldowns: Vec<ActionCooldown>,
    /// The completion records to write.
    pub completed: Vec<CompletedAction>,
    /// The loose inventory lines to write.
    pub lines: Vec<InventoryItem>,
    /// The loose inventory lines to delete.
    pub emptied_lines: Vec<InventoryItem>,
}

/// Whether the changes are those from `before` to `after`. A row is to be
/// written if and only if `after` holds it and `before` does not hold it as
/// it is; a cooldown or a loose line is to be deleted if and only if
/// `before` holds it and `after` holds none under its key.
pub open spec fn are_changes(
    changes: StoreChanges,
    before: CharacterStore,
    after: CharacterStore,
) -> bool {
    &&& forall|c: Character| #[trigger]
        changes.characters@.contains(c) <==> binds(after@.characters, c.id, c) && !(
        before@.characters.dom().contains(c.id) && same_character(before@.characters[c.id], c))
    &&& forall|row: ActionCooldown| #[trigger]
        changes.cooldowns@.contains(row) <==> binds(after@.cooldowns, row.key(), row) && !binds(
            before@.cooldowns,
            row.key(),
            row,
        )
    &&& forall|row: ActionCooldown| #[trigger]
        changes.ended_cooldowns@.contains(row) <==> binds(before@.cooldowns, row.key(), row)
            && !after@.cooldowns.dom().contains(row.key())
    &&& forall|row: CompletedAction| #[trigger]
        changes.completed@.contains(row) <==> binds(after@.completed, row.key(), row) && !binds(
            before@.completed,
            row.key(),
            row,
        )
    &&& forall|row: InventoryItem| #[trigger]
        changes.lines@.contains(row) <==> row.slot is None && binds(
            after@.inventory,
            row.key(),
            row,
        ) && !binds(before@.inventory, row.key(), row)
    &&& forall|row: InventoryItem| #[trigger]
        changes.emptied_lines@.contains(row) <==> row.slot is None && binds(
            before@.inventory,
            row.key(),
            row,
        ) && !after@.inventory.dom().contains(row.key())
}

/// The characters of `after` that are new or not what they were in
/// `before`.
fn characters_to_write(before: &CharacterStore, after: &CharacterStore) -> (rows: Vec<Character>)
    requires
        before.wf(),
        after.wf(),
    ensures
        forall|c: Character| #[trigger]
            rows@.contains(c) <==> binds(after@.characters, c.id, c) && !(
            before@.characters.dom().contains(c.id) && same_character(before@.characters[c.id], c)),
{
    proof {
        after.lemma_unfold();
        lemma_rows_are_bound(after.characters@);
    }
    let mut rows: Vec<Character> = Vec::new();
    let mut i: usize = 0;
    while i < after.characters.len()
        invariant
            before.wf(),
            i <= after.characters@.len(),
            forall|c: Character| #[trigger]
                rows@.contains(c) <==> after.characters@.take(i as int).contains(c) && !(
                before@.characters.dom().contains(c.id) && same_character(
                    before@.characters[c.id],
                    c,
                )),
        decreases after.characters@.len() - i,
    {
        let character = &after.characters[i];
        let ghost seen = after.characters@.take(i as int);
        let ghost listed = rows@;
        proof {
            assert(after.characters@.take(i + 1) =~= seen.push(*character));
            lemma_push_contains(seen, *character);
        }
        let unchanged = match before.find_character(character.id) {
            Some(place) => characters_match(&before.characters[place], character),
            None => false,
        };
        if !unchanged {
            rows.push(copy_character(character));
            proof {
                lemma_push_contains(listed, *character);
            }
        }
        i = i + 1;
    }
    assert(after.characters@.take(i as int) =~= after.characters@);
    rows
}

/// A copy of a loose line.
fn copy_loose_line(line: &InventoryItem) -> (copy: InventoryItem)
    requires
        line.slot is None,
    ensures
        copy == *line,
{
    InventoryItem {
        character_id: line.character_id,
        item_id: line.item_id,
        quantity: line.quantity,
        equipped: line.equipped,
        slot: None,
    }
}

/// The loose lines of `after` that `before` does not hold as they are.
fn lines_to_write(before: &CharacterStore, after: &CharacterStore) -> (rows: Vec<InventoryItem>)
    requires
        before.wf(),
        after.wf(),
    ensures
        forall|row: InventoryItem| #[trigger]
            rows@.contains(row) <==> row.slot is None && binds(after@.inventory, row.key(), row)
                && !binds(before@.inventory, row.key(), row),
{
    proof {
        after.lemma_unfold();
        lemma_rows_are_bound(after.inventory@);
    }
    let mut rows: Vec<InventoryItem> = Vec::new();
    let mut i: usize = 0;
    while i < after.inventory.len()
        invariant
            before.wf(),
            i <= after.inventory@.len(),
            forall|row: InventoryItem| #[trigger]
                rows@.contains(row) <==> row.slot is None && after.inventory@.take(
                    i as int,
                ).contains(row) && !binds(before@.inventory, row.key(), row),
        decreases after.inventory@.len() - i,
    {
        let line = &after.inventory[i];
        let ghost seen = after.inventory@.take(i as int);
        let ghost listed = rows@;
        proof {
            assert(after.inventory@.take(i + 1) =~= seen.push(*line));
            lemma_push_contains(seen, *line);
        }
        if line.slot.is_none() {
            assert(line.key() == loose_line(line.character_id, line.item_id));
            let unchanged = match before.find_loose_line(line.character_id, line.item_id) {
                Some(place) => before.inventory[place].quantity == line.quantity
                    && before.inventory[place].equipped == line.equipped,
                None => false,
            };
            if !unchanged {
                rows.push(copy_loose_line(line));
                proof {
                    lemma_push_contains(listed, *line);
                }
            }
        }
        i = i + 1;
    }
    assert(after.inventory@.take(i as int) =~= after.inventory@);
    rows
}

/// The loose lines of `before` under whose key `after` holds none.
fn lines_to_delete(before: &CharacterStore, after: &CharacterStore) -> (rows: Vec<InventoryItem>)
    requires
        before.wf(),
        after.wf(),
    ensures
        forall|row: InventoryItem| #[trigger]
            rows@.contains(row) <==> row.slot is None && binds(before@.inventory, row.key(), row)
                && !after@.inventory.dom().contains(row.key()),
{
    proof {
        before.lemma_unfold();
        lemma_rows_are_bound(before.inventory@);
    }
    let mut rows: Vec<InventoryItem> = Vec::new();
    let mut i: usize = 0;
    while i < before.inventory.len()
        invariant
            after.wf(),
            i <= before.inventory@.len(),
            forall|row: InventoryItem| #[trigger]
                rows@.contains(row) <==> row.slot is None && before.inventory@.take(
                    i as int,
                ).contains(row) && !after@.inventory.dom().contains(row.key()),
        decreases before.inventory@.len() - i,
    {
        let line = &before.inventory[i];
        let ghost seen = before.inventory@.take(i as int);
        let ghost listed = rows@;
        proof {
            assert(before.inventory@.take(i + 1) =~= seen.push(*line));
            lemma_push_contains(seen, *line);
        }
        if line.slot.is_none() {
            assert(line.key() == loose_line(line.character_id, line.item_id));
            if after.find_loose_line(line.character_id, line.item_id).is_none() {
                rows.push(copy_loose_line(line));
                proof {
                    lemma_push_contains(listed, *line);
                }
            }
        }
        i = i + 1;
    }
    assert(before.inventory@.take(i as int) =~= before.inventory@);
    rows
}

/// What changed from `before` to `after`: the rows to write and the rows to
/// delete. Equipped lines, which are the lines in slots, are left out: no
/// operation on a store touches them. Characters and completion records are
/// written and never deleted.
pub fn changes_between(before: &CharacterStore, after: &CharacterStore) -> (changes: StoreChanges)
    requires
        before.wf(),
        after.wf(),
    ensures
        are_changes(changes, *before, *after),
{
    proof {
        before.lemma_unfold();
        after.lemma_unfold();
        lemma_rows_are_bound(before.cooldowns@);
        lemma_rows_are_bound(after.cooldowns@);
        lemma_rows_are_bound(before.completed@);
        lemma_rows_are_bound(after.completed@);
    }
    StoreChanges {
        characters: characters_to_write(before, after),
        cooldowns: rows_to_write(&before.cooldowns, &after.cooldowns),
        ended_cooldowns: rows_to_delete(&before.cooldowns, &after.cooldowns),
        completed: rows_to_write(&before.completed, &after.completed),
        lines: lines_to_write(before, after),
        emptied_lines: lines_to_delete(before, after),
    }
}

} // verus!
