use my_rust_shinobi::changes::{
    changes_between, characters_match, copy_character, holds_key, holds_row, rows_to_delete,
    rows_to_write, StoreChanges,
};
use my_rust_shinobi::character::{
    ActionCooldown, Character, CharacterClass, CompletedAction, InventoryItem,
};
use my_rust_shinobi::completion::record_completed_action;
use my_rust_shinobi::cooldown::{cleanup_expired_cooldowns, set_action_cooldown};
use my_rust_shinobi::inventory::{add_item_to_inventory, remove_item_from_inventory};
use my_rust_shinobi::roster::update_character_location;
use my_rust_shinobi::store::CharacterStore;

fn character(id: u128, name: &str) -> Character {
    Character {
        id,
        player_id: 2,
        name: String::from(name),
        level: 1,
        experience: 0,
        health: 100,
        max_health: 100,
        mana: 50,
        max_mana: 50,
        strength: 10,
        dexterity: 10,
        intelligence: 10,
        constitution: 10,
        wisdom: 10,
        charisma: 10,
        gold: 100,
        action_points: 10,
        max_action_points: 10,
        character_class: CharacterClass::Adventurer,
        created_at: 0,
        updated_at: 0,
        location_id: 7,
    }
}

fn cooldown(character_id: u128, action_id: u128, available_at: i64) -> ActionCooldown {
    ActionCooldown { character_id, action_id, available_at }
}

fn loose(item_id: u128, quantity: i32) -> InventoryItem {
    InventoryItem { character_id: 1, item_id, quantity, equipped: false, slot: None }
}

fn worn(item_id: u128) -> InventoryItem {
    InventoryItem {
        character_id: 1,
        item_id,
        quantity: 1,
        equipped: true,
        slot: Some(String::from("hand")),
    }
}

fn nothing() -> StoreChanges {
    StoreChanges {
        characters: Vec::new(),
        cooldowns: Vec::new(),
        ended_cooldowns: Vec::new(),
        completed: Vec::new(),
        lines: Vec::new(),
        emptied_lines: Vec::new(),
    }
}

fn store() -> CharacterStore {
    CharacterStore::from_rows(
        vec![character(1, "Aria"), character(2, "Borin")],
        vec![cooldown(1, 5, 100), cooldown(1, 6, 200), cooldown(2, 5, 300)],
        vec![CompletedAction { character_id: 1, action_id: 5, completed_at: 40, times_completed: 1 }],
        vec![loose(8, 2), worn(8), loose(9, 5)],
    )
    .unwrap()
}

#[test]
fn unchanged_store_has_no_changes() {
    let before = store();
    assert_eq!(changes_between(&before, &before.clone()), nothing());
    let empty = CharacterStore::new();
    assert_eq!(changes_between(&empty, &empty.clone()), nothing());
}

#[test]
fn each_operation_reports_what_it_wrote() {
    let before = store();

    let mut after = before.clone();
    set_action_cooldown(&mut after, 1, 5, 60, 1000);
    set_action_cooldown(&mut after, 2, 6, 10, 1000);
    let changes = changes_between(&before, &after);
    assert_eq!(changes.cooldowns, vec![cooldown(1, 5, 1060), cooldown(2, 6, 1010)]);
    assert_eq!(StoreChanges { cooldowns: Vec::new(), ..changes }, nothing());

    let mut after = before.clone();
    assert_eq!(cleanup_expired_cooldowns(&mut after, 250), 2);
    let changes = changes_between(&before, &after);
    assert_eq!(changes.ended_cooldowns, vec![cooldown(1, 5, 100), cooldown(1, 6, 200)]);
    assert_eq!(StoreChanges { ended_cooldowns: Vec::new(), ..changes }, nothing());

    let mut after = before.clone();
    record_completed_action(&mut after, 1, 5, 77);
    record_completed_action(&mut after, 2, 5, 78);
    let changes = changes_between(&before, &after);
    assert_eq!(
        changes.completed,
        vec![
            CompletedAction { character_id: 1, action_id: 5, completed_at: 77, times_completed: 2 },
            CompletedAction { character_id: 2, action_id: 5, completed_at: 78, times_completed: 1 },
        ]
    );
    assert_eq!(StoreChanges { completed: Vec::new(), ..changes }, nothing());

    let mut after = before.clone();
    add_item_to_inventory(&mut after, 1, 8, 3);
    add_item_to_inventory(&mut after, 1, 7, 1);
    remove_item_from_inventory(&mut after, 1, 9, 5);
    let changes = changes_between(&before, &after);
    assert_eq!(changes.lines, vec![loose(8, 5), loose(7, 1)]);
    assert_eq!(changes.emptied_lines, vec![loose(9, 5)]);
    assert_eq!(
        StoreChanges { lines: Vec::new(), emptied_lines: Vec::new(), ..changes },
        nothing()
    );

    let mut after = before.clone();
    update_character_location(&mut after, 2, 99, 1234).unwrap();
    let changes = changes_between(&before, &after);
    let mut moved = character(2, "Borin");
    moved.location_id = 99;
    moved.updated_at = 1234;
    assert_eq!(changes.characters, vec![moved]);
    assert_eq!(StoreChanges { characters: Vec::new(), ..changes }, nothing());
}

#[test]
fn changes_that_cancel_out_are_not_reported() {
    let before = store();
    let mut after = before.clone();
    add_item_to_inventory(&mut after, 1, 8, 3);
    remove_item_from_inventory(&mut after, 1, 8, 3);
    set_action_cooldown(&mut after, 1, 5, 0, 100);
    assert_eq!(changes_between(&before, &after), nothing());
}

#[test]
fn rows_are_compared_as_a_whole_and_by_key() {
    let before = vec![cooldown(1, 5, 100), cooldown(1, 6, 200)];
    let after = vec![cooldown(1, 6, 200), cooldown(1, 5, 101), cooldown(3, 5, 1)];
    assert!(holds_row(&before, &cooldown(1, 5, 100)));
    assert!(!holds_row(&before, &cooldown(1, 5, 101)));
    assert!(holds_key(&before, &cooldown(1, 5, 999)));
    assert!(!holds_key(&before, &cooldown(5, 1, 100)));
    assert_eq!(rows_to_write(&before, &after), vec![cooldown(1, 5, 101), cooldown(3, 5, 1)]);
    assert_eq!(rows_to_delete(&before, &after), Vec::new());
    assert_eq!(rows_to_delete(&after, &before), vec![cooldown(3, 5, 1)]);
    assert_eq!(rows_to_write(&after, &before), vec![cooldown(1, 5, 100)]);
}

#[test]
fn characters_are_compared_field_by_field() {
    let a = character(1, "Aria");
    assert!(characters_match(&a, &copy_character(&a)));
    assert_eq!(copy_character(&a), a);
    let changed: Vec<fn(&mut Character)> = vec![
        |c| c.id = 9,
        |c| c.player_id = 9,
        |c| c.name = String::from("aria"),
        |c| c.level = 9,
        |c| c.experience = 9,
        |c| c.health = 9,
        |c| c.max_health = 999,
        |c| c.mana = 9,
        |c| c.max_mana = 999,
        |c| c.strength = 9,
        |c| c.dexterity = 9,
        |c| c.intelligence = 9,
        |c| c.constitution = 9,
        |c| c.wisdom = 9,
        |c| c.charisma = 9,
        |c| c.gold = 9,
        |c| c.action_points = 9,
        |c| c.max_action_points = 999,
        |c| c.character_class = CharacterClass::Rogue,
        |c| c.created_at = 9,
        |c| c.updated_at = 9,
        |c| c.location_id = 9,
    ];
    for change in changed {
        let mut b = character(1, "Aria");
        change(&mut b);
        assert!(!characters_match(&a, &b));
    }
}
