//! The roster: creating, finding and updating characters.

use vstd::prelude::*;
use crate::catalog::{get_location_by_id, Id, Location, Timestamp, WorldCatalog};
use crate::character::{Character, CharacterClass, CreateCharacter};
use crate::keyed::{lemma_row_bound, lemma_row_lookup, lemma_row_push, lemma_row_update, Keyed};
use crate::store::{CharacterStore, StoreView};
use crate::text::{names_match, same_name};

verus! {

/// Health and maximum health of a new character.
pub const STARTING_HEALTH: i32 = 100;

/// Mana and maximum mana of a new character.
pub const STARTING_MANA: i32 = 50;

/// Each of the six attributes of a new character.
pub const STARTING_STAT: i32 = 10;

/// The currency balance of a new character.
pub const STARTING_GOLD: i64 = 100;

/// Action points and maximum action points of a new character.
pub const STARTING_ACTION_POINTS: i32 = 10;

/// Where a new character starts: the tavern of the starting town.
pub const STARTING_LOCATION: Id = 0xb000_0000_0000_0000_0000_0000_0000_0005;

/// Whether a character of the store has the name, but for ASCII case.
pub open spec fn name_taken(store: StoreView, name: Seq<char>) -> bool {
    exists|id: Id| #[trigger]
        store.characters.dom().contains(id) && same_name(store.characters[id].name@, name)
}

/// The character that is made for `data` under `id` at `now`: level one, no
/// experience, and the starting health, mana, attributes, currency, action
/// points, class and location.
pub open spec fn new_character(id: Id, data: CreateCharacter, now: Timestamp) -> Character {
    Character {
        id,
        player_id: data.player_id,
        name: data.name,
        level: 1,
        experience: 0,
        health: STARTING_HEALTH,
        max_health: STARTING_HEALTH,
        mana: STARTING_MANA,
        max_mana: STARTING_MANA,
        strength: STARTING_STAT,
        dexterity: STARTING_STAT,
        intelligence: STARTING_STAT,
        constitution: STARTING_STAT,
        wisdom: STARTING_STAT,
        charisma: STARTING_STAT,
        gold: STARTING_GOLD,
        action_points: STARTING_ACTION_POINTS,
        max_action_points: STARTING_ACTION_POINTS,
        character_class: CharacterClass::Adventurer,
        created_at: now,
        updated_at: now,
        location_id: STARTING_LOCATION,
    }
}

/// Why a character was not created.
#[derive(Debug, Clone, Copy, PartialEq, Eq, Structural)]
pub enum CreateCharacterError {
    /// A character has the id already.
    IdTaken,
    /// A character has the name already, but for ASCII case.
    NameTaken,
}

/// Why the attributes of a character were not updated.
#[derive(Debug, Clone, Copy, PartialEq, Eq, Structural)]
pub enum UpdateStatsError {
    /// No character has the id.
    NotFound,
    /// The level is below one.
    LevelBelowOne,
}

/// Why the location of a character was not updated.
#[derive(Debug, Clone, Copy, PartialEq, Eq, Structural)]
pub enum UpdateLocationError {
    /// No character has the id.
    NotFound,
}

/// Get a character by id.
pub fn get_character_by_id(store: &CharacterStore, character_id: Id) -> (character: Option<
    &Character,
>)
    requires
        store.wf(),
    ensures
        match character {
            Some(c) => store@.character(character_id) == Some(*c),
            None => store@.character(character_id) is None,
        },
{
    match store.find_character(character_id) {
        Some(place) => Some(&store.characters[place]),
        None => None,
    }
}

/// Check if a character name is already taken. Names that differ only in
/// the ASCII case of their letters count as the same name.
pub fn is_character_name_taken(store: &CharacterStore, name: &str) -> (taken: bool)
    requires
        store.wf(),
    ensures
        taken == name_taken(store@, name@),
{
    proof {
        store.lemma_unfold();
    }
    let mut i: usize = 0;
    while i < store.characters.len()
        invariant
            store.wf(),
            i <= store.characters@.len(),
            forall|j: int|
                0 <= j < i ==> !same_name((#[trigger] store.characters@[j]).name@, name@),
        decreases store.characters@.len() - i,
    {
        if names_match(store.characters[i].name.as_str(), name) {
            proof {
                store.lemma_unfold();
                lemma_row_lookup(store.characters@, i as int);
            }
            return true;
        }
        i = i + 1;
    }
    proof {
        store.lemma_unfold();
        if name_taken(store@, name@) {
            let id = choose|id: Id| #[trigger]
                store@.characters.dom().contains(id) && same_name(
                    store@.characters[id].name@,
                    name@,
                );
            lemma_row_bound(store.characters@, id);
            let j = choose|j: int|
                0 <= j < store.characters@.len() && (#[trigger] store.characters@[j]).key() == id;
            lemma_row_lookup(store.characters@, j);
        }
    }
    false
}

fn starting_character(id: Id, player_id: Id, name: String, now: Timestamp) -> (character: Character)
    ensures
        character == new_character(id, CreateCharacter { player_id, name }, now),
{
    Character {
        id,
        player_id,
        name,
        level: 1,
        experience: 0,
        health: STARTING_HEALTH,
        max_health: STARTING_HEALTH,
        mana: STARTING_MANA,
        max_mana: STARTING_MANA,
        strength: STARTING_STAT,
        dexterity: STARTING_STAT,
        intelligence: STARTING_STAT,
        constitution: STARTING_STAT,
        wisdom: STARTING_STAT,
        charisma: STARTING_STAT,
        gold: STARTING_GOLD,
        action_points: STARTING_ACTION_POINTS,
        max_action_points: STARTING_ACTION_POINTS,
        character_class: CharacterClass::Adventurer,
        created_at: now,
        updated_at: now,
        location_id: STARTING_LOCATION,
    }
}

/// Create a new character with default starting stats, under the id `id`
/// and at the time `now`. The character is refused where a character has
/// the id or, but for ASCII case, the name; the store is then unchanged.
pub fn create_character(
    store: &mut CharacterStore,
    id: Id,
    data: CreateCharacter,
    now: Timestamp,
) -> (created: Result<Character, CreateCharacterError>)
    requires
        old(store).wf(),
    ensures
        final(store).wf(),
        match created {
            Ok(character) => {
                &&& !old(store)@.characters.dom().contains(id)
                &&& !name_taken(old(store)@, data.name@)
                &&& character == new_character(id, data, now)
                &&& final(store)@ == old(store)@.put_character(character)
            },
            Err(CreateCharacterError::IdTaken) => {
                &&& old(store)@.characters.dom().contains(id)
                &&& *final(store) == *old(store)
            },
            Err(CreateCharacterError::NameTaken) => {
                &&& !old(store)@.characters.dom().contains(id)
                &&& name_taken(old(store)@, data.name@)
                &&& *final(store) == *old(store)
            },
        },
{
    if store.find_character(id).is_some() {
        return Err(CreateCharacterError::IdTaken);
    }
    if is_character_name_taken(store, data.name.as_str()) {
        return Err(CreateCharacterError::NameTaken);
    }
    let copy = starting_character(id, data.player_id, data.name.clone(), now);
    let character = starting_character(id, data.player_id, data.name, now);
    proof {
        store.lemma_unfold();
        let before = store.characters@;
        assert forall|j: int| 0 <= j < before.len() implies (#[trigger] before[j]).key()
            != character.key() by {
            if before[j].key() == character.key() {
                lemma_row_lookup(before, j);
            }
        }
        lemma_row_push(before, character);
        let after = before.push(character);
        assert forall|j: int| 0 <= j < after.len() implies (#[trigger] after[j]).valid() by {
            if j < before.len() {
                assert(before[j].valid());
            }
        }
        assert forall|i: int, j: int| 0 <= i < j < after.len() implies !same_name(
            (#[trigger] after[i]).name@,
            (#[trigger] after[j]).name@,
        ) by {
            if j < before.len() {
                assert(!same_name(before[i].name@, before[j].name@));
            } else {
                lemma_row_lookup(before, i);
            }
        }
    }
    store.characters.push(character);
    proof {
        store.lemma_unfold();
    }
    Ok(copy)
}

/// The character after its attributes were set, at `now`: health and mana
/// are filled up to the new maxima.
pub open spec fn with_stats(
    character: Character,
    level: i32,
    experience: i64,
    max_health: i32,
    max_mana: i32,
    strength: i32,
    dexterity: i32,
    intelligence: i32,
    now: Timestamp,
) -> Character {
    Character {
        level,
        experience,
        max_health,
        health: max_health,
        max_mana,
        mana: max_mana,
        strength,
        dexterity,
        intelligence,
        updated_at: now,
        ..character
    }
}

/// Update character stats after leveling up or training: sets the level,
/// the experience, the maxima of health and mana and three attributes, and
/// fills health and mana up to their maxima. The update fails with
/// `NotFound` where no character has the id, and with `LevelBelowOne` where
/// the character is there and the level is below one; the store is then
/// unchanged.
pub fn update_character_stats(
    store: &mut CharacterStore,
    character_id: Id,
    level: i32,
    experience: i64,
    max_health: i32,
    max_mana: i32,
    strength: i32,
    dexterity: i32,
    intelligence: i32,
    now: Timestamp,
) -> (updated: Result<(), UpdateStatsError>)
    requires
        old(store).wf(),
    ensures
        final(store).wf(),
        match old(store)@.character(character_id) {
            None => updated == Err::<(), UpdateStatsError>(UpdateStatsError::NotFound)
                && *final(store) == *old(store),
            Some(character) => if level < 1 {
                updated == Err::<(), UpdateStatsError>(UpdateStatsError::LevelBelowOne)
                    && *final(store) == *old(store)
            } else {
                &&& updated == Ok::<(), UpdateStatsError>(())
                &&& final(store)@ == old(store)@.put_character(
                    with_stats(
                        character,
                        level,
                        experience,
                        max_health,
                        max_mana,
                        strength,
                        dexterity,
                        intelligence,
                        now,
                    ),
                )
            },
        },
{
    match store.find_character(character_id) {
        Some(place) => {
            if level < 1 {
                return Err(UpdateStatsError::LevelBelowOne);
            }
            let ghost before = store.characters@;
            proof {
                store.lemma_unfold();
            }
            store.characters[place].level = level;
            store.characters[place].experience = experience;
            store.characters[place].max_health = max_health;
            store.characters[place].health = max_health;
            store.characters[place].max_mana = max_mana;
            store.characters[place].mana = max_mana;
            store.characters[place].strength = strength;
            store.characters[place].dexterity = dexterity;
            store.characters[place].intelligence = intelligence;
            store.characters[place].updated_at = now;
            proof {
                let after = store.characters@[place as int];
                assert(store.characters@ =~= before.update(place as int, after));
                lemma_row_update(before, place as int, after);
                assert forall|j: int| 0 <= j < store.characters@.len() implies (
                #[trigger] store.characters@[j]).valid() by {
                    if j != place {
                        assert(before[j].valid());
                    }
                }
                store.lemma_unfold();
            }
            Ok(())
        },
        None => Err(UpdateStatsError::NotFound),
    }
}

/// Update character's location: the character is at `location_id` from
/// `now` on. The update fails with `NotFound` exactly where no character has
/// the id; the store is then unchanged.
pub fn update_character_location(
    store: &mut CharacterStore,
    character_id: Id,
    location_id: Id,
    now: Timestamp,
) -> (updated: Result<(), UpdateLocationError>)
    requires
        old(store).wf(),
    ensures
        final(store).wf(),
        match old(store)@.character(character_id) {
            Some(character) => updated == Ok::<(), UpdateLocationError>(()) && final(store)@
                == old(store)@.put_character(
                Character { location_id, updated_at: now, ..character },
            ),
            None => updated == Err::<(), UpdateLocationError>(UpdateLocationError::NotFound)
                && *final(store) == *old(store),
        },
{
    match store.find_character(character_id) {
        Some(place) => {
            let ghost before = store.characters@;
            proof {
                store.lemma_unfold();
            }
            store.characters[place].location_id = location_id;
            store.characters[place].updated_at = now;
            proof {
                let after = store.characters@[place as int];
                assert(store.characters@ =~= before.update(place as int, after));
                lemma_row_update(before, place as int, after);
                assert forall|j: int| 0 <= j < store.characters@.len() implies (
                #[trigger] store.characters@[j]).valid() by {
                    if j != place {
                        assert(before[j].valid());
                    }
                }
                store.lemma_unfold();
            }
            Ok(())
        },
        None => Err(UpdateLocationError::NotFound),
    }
}

/// Get location info for a character, by the id of its location.
pub fn get_character_location_info<'a>(catalog: &'a WorldCatalog, location_id: Id) -> (location:
    Option<&'a Location>)
    requires
        catalog.wf(),
    ensures
        match location {
            Some(l) => catalog.location(location_id) == Some(*l),
            None => catalog.location(location_id) is None,
        },
{
    get_location_by_id(catalog, location_id)
}

} // verus!
