//! Characters and the rows that hang on them: cooldowns, completed actions
//! and inventory lines.

use vstd::prelude::*;
use crate::catalog::{Id, Timestamp};
use crate::keyed::Keyed;
use crate::text::optional_text;

verus! {

/// The class of a character.
#[derive(Debug, Clone, Copy, PartialEq, Eq, Structural)]
pub enum CharacterClass {
    Adventurer,
    Warrior,
    Mage,
    Rogue,
    Cleric,
}

/// Character: the adventurer a player controls.
#[derive(Debug, Clone, PartialEq, Eq)]
pub struct Character {
    pub id: Id,
    pub player_id: Id,
    pub name: String,
    pub level: i32,
    pub experience: i64,
    pub health: i32,
    pub max_health: i32,
    pub mana: i32,
    pub max_mana: i32,
    pub strength: i32,
    pub dexterity: i32,
    pub intelligence: i32,
    pub constitution: i32,
    pub wisdom: i32,
    pub charisma: i32,
    pub gold: i64,
    pub action_points: i32,
    pub max_action_points: i32,
    pub character_class: CharacterClass,
    pub created_at: Timestamp,
    pub updated_at: Timestamp,
    pub location_id: Id,
}

impl Character {
    /// The invariant of a character: no resource is above its maximum, the
    /// currency balance is not negative, and the level is at least one.
    pub open spec fn valid(self) -> bool {
        &&& self.health <= self.max_health
        &&& self.mana <= self.max_mana
        &&& self.action_points <= self.max_action_points
        &&& self.gold >= 0
        &&& self.level >= 1
    }

    /// Tests [`Character::valid`].
    pub fn is_valid(&self) -> (ok: bool)
        ensures
            ok == self.valid(),
    {
        self.health <= self.max_health && self.mana <= self.max_mana && self.action_points
            <= self.max_action_points && self.gold >= 0 && self.level >= 1
    }
}

impl Keyed for Character {
    type Key = Id;

    open spec fn key(&self) -> Id {
        self.id
    }

    fn same_key(&self, other: &Self) -> (same: bool) {
        self.id == other.id
    }
}

/// Data for creating a new character.
#[derive(Debug, Clone, PartialEq, Eq)]
pub struct CreateCharacter {
    pub player_id: Id,
    pub name: String,
}

impl Default for CreateCharacter {
    fn default() -> (data: Self)
        ensures
            data.player_id == 0,
            data.name@ == Seq::<char>::empty(),
    {
        CreateCharacter { player_id: 0, name: String::new() }
    }
}

/// A cooldown: the character may not invoke the action again before
/// `available_at`. A character and an action have at most one.
#[derive(Debug, Clone, Copy, PartialEq, Eq)]
pub struct ActionCooldown {
    pub character_id: Id,
    pub action_id: Id,
    pub available_at: Timestamp,
}

impl Keyed for ActionCooldown {
    type Key = (Id, Id);

    open spec fn key(&self) -> (Id, Id) {
        (self.character_id, self.action_id)
    }

    fn same_key(&self, other: &Self) -> (same: bool) {
        self.character_id == other.character_id && self.action_id == other.action_id
    }
}

/// How often a character has completed an action, and when it last did.
#[derive(Debug, Clone, Copy, PartialEq, Eq)]
pub struct CompletedAction {
    pub character_id: Id,
    pub action_id: Id,
    pub completed_at: Timestamp,
    pub times_completed: i32,
}

impl Keyed for CompletedAction {
    type Key = (Id, Id);

    open spec fn key(&self) -> (Id, Id) {
        (self.character_id, self.action_id)
    }

    fn same_key(&self, other: &Self) -> (same: bool) {
        self.character_id == other.character_id && self.action_id == other.action_id
    }
}

/// A line of a character's inventory: a quantity of one item, loose or in an
/// equipment slot. A line in a slot is equipped and a loose line is not. A
/// character has at most one line per item and slot, and so at most one
/// unequipped line per item.
#[derive(Debug, Clone, PartialEq, Eq)]
pub struct InventoryItem {
    pub character_id: Id,
    pub item_id: Id,
    pub quantity: i32,
    pub equipped: bool,
    pub slot: Option<String>,
}

impl InventoryItem {
    /// A line holds at least one item, and it is equipped if and only if it
    /// is in a slot.
    pub open spec fn valid(self) -> bool {
        &&& self.quantity >= 1
        &&& self.equipped <==> self.slot is Some
    }

    /// Tests [`InventoryItem::valid`].
    pub fn is_valid(&self) -> (ok: bool)
        ensures
            ok == self.valid(),
    {
        self.quantity >= 1 && self.equipped == self.slot.is_some()
    }
}

impl Keyed for InventoryItem {
    type Key = (Id, Id, Option<Seq<char>>);

    open spec fn key(&self) -> (Id, Id, Option<Seq<char>>) {
        (self.character_id, self.item_id, optional_text(self.slot))
    }

    fn same_key(&self, other: &Self) -> (same: bool) {
        if self.character_id != other.character_id || self.item_id != other.item_id {
            return false;
        }
        match &self.slot {
            None => other.slot.is_none(),
            Some(a) => match &other.slot {
                None => false,
                Some(b) => *a == *b,
            },
        }
    }
}

} // verus!
