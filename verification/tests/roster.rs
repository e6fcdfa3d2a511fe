use my_rust_shinobi::catalog::{Location, LocationType, WorldCatalog};
use my_rust_shinobi::character::{Character, CharacterClass, CreateCharacter};
use my_rust_shinobi::roster::{
    create_character, get_character_by_id, get_character_location_info, is_character_name_taken,
    update_character_location, update_character_stats, CreateCharacterError,
    UpdateLocationError, UpdateStatsError, STARTING_LOCATION,
};
use my_rust_shinobi::store::CharacterStore;
use my_rust_shinobi::text::names_match;

fn request(player_id: u128, name: &str) -> CreateCharacter {
    CreateCharacter { player_id, name: String::from(name) }
}

#[test]
fn new_character_has_the_starting_values() {
    let mut store = CharacterStore::new();
    let created = create_character(&mut store, 11, request(22, "Aria"), 1234).unwrap();
    let expected = Character {
        id: 11,
        player_id: 22,
        name: String::from("Aria"),
        level: 1,
        experience: 0,
        health: 100,
        max_health: 100,
        mana: 50,
        max_mana: 50,
        strength: 10,
        dexterity: 10,
        intelligence: 10,
        constitution: 10,
        wisdom: 10,
        charisma: 10,
        gold: 100,
        action_points: 10,
        max_action_points: 10,
        character_class: CharacterClass::Adventurer,
        created_at: 1234,
        updated_at: 1234,
        location_id: 0xb000_0000_0000_0000_0000_0000_0000_0005,
    };
    assert_eq!(created, expected);
    assert_eq!(store.character_rows(), &vec![expected.clone()]);
    assert_eq!(get_character_by_id(&store, 11), Some(&expected));
    assert_eq!(get_character_by_id(&store, 12), None);
    assert_eq!(STARTING_LOCATION, 0xb000_0000_0000_0000_0000_0000_0000_0005);
}

#[test]
fn default_request_is_empty() {
    let data = CreateCharacter::default();
    assert_eq!(data.player_id, 0);
    assert_eq!(data.name, "");
}

#[test]
fn taken_id_and_taken_name_are_refused() {
    let mut store = CharacterStore::new();
    assert!(create_character(&mut store, 1, request(9, "Aria"), 0).is_ok());
    assert_eq!(
        create_character(&mut store, 1, request(9, "Borin"), 0),
        Err(CreateCharacterError::IdTaken)
    );
    assert_eq!(
        create_character(&mut store, 1, request(9, "Aria"), 0),
        Err(CreateCharacterError::IdTaken)
    );
    assert_eq!(
        create_character(&mut store, 2, request(9, "aRIA"), 0),
        Err(CreateCharacterError::NameTaken)
    );
    assert_eq!(store.character_rows().len(), 1);
    assert!(create_character(&mut store, 2, request(9, "Aria2"), 0).is_ok());
    assert_eq!(store.character_rows().len(), 2);
}

#[test]
fn names_are_matched_without_ascii_case() {
    assert!(names_match("Aria", "aria"));
    assert!(names_match("ARIA", "aria"));
    assert!(names_match("", ""));
    assert!(names_match("a-Z_09", "A-z_09"));
    assert!(!names_match("Aria", "Arya"));
    assert!(!names_match("Aria", "Aria "));
    assert!(!names_match("Aria", ""));
    assert!(!names_match("@", "`"));
    assert!(!names_match("[", "{"));
    assert!(names_match("Zoë", "zoë"));
    assert!(!names_match("ZOË", "zoë"));
    let mut store = CharacterStore::new();
    create_character(&mut store, 1, request(9, "Aria"), 0).unwrap();
    assert!(is_character_name_taken(&store, "ARIA"));
    assert!(is_character_name_taken(&store, "Aria"));
    assert!(!is_character_name_taken(&store, "Ari"));
    assert!(!is_character_name_taken(&CharacterStore::new(), "Aria"));
}

#[test]
fn stats_update_fills_health_and_mana() {
    let mut store = CharacterStore::new();
    create_character(&mut store, 1, request(9, "Aria"), 0).unwrap();
    create_character(&mut store, 2, request(9, "Borin"), 0).unwrap();
    assert_eq!(update_character_stats(&mut store, 1, 2, 150, 120, 60, 12, 11, 13, 77), Ok(()));
    let c = get_character_by_id(&store, 1).unwrap();
    assert_eq!((c.level, c.experience), (2, 150));
    assert_eq!((c.health, c.max_health), (120, 120));
    assert_eq!((c.mana, c.max_mana), (60, 60));
    assert_eq!((c.strength, c.dexterity, c.intelligence), (12, 11, 13));
    assert_eq!((c.constitution, c.wisdom, c.charisma), (10, 10, 10));
    assert_eq!((c.gold, c.action_points, c.updated_at, c.created_at), (100, 10, 77, 0));
    let other = get_character_by_id(&store, 2).unwrap();
    assert_eq!((other.level, other.health, other.updated_at), (1, 100, 0));
}

#[test]
fn level_below_one_is_refused_and_missing_character_is_not_found() {
    let mut store = CharacterStore::new();
    create_character(&mut store, 1, request(9, "Aria"), 0).unwrap();
    let before = store.character_rows().clone();
    assert_eq!(
        update_character_stats(&mut store, 1, 0, 150, 120, 60, 12, 11, 13, 77),
        Err(UpdateStatsError::LevelBelowOne)
    );
    assert_eq!(
        update_character_stats(&mut store, 5, -3, 150, 120, 60, 12, 11, 13, 77),
        Err(UpdateStatsError::NotFound)
    );
    assert_eq!(store.character_rows(), &before);
    assert_eq!(
        update_character_stats(&mut store, 5, 2, 150, 120, 60, 12, 11, 13, 77),
        Err(UpdateStatsError::NotFound)
    );
    assert_eq!(store.character_rows(), &before);
    assert_eq!(update_character_stats(&mut store, 1, 1, 0, 1, 1, 1, 1, 1, 78), Ok(()));
}

#[test]
fn location_update_moves_the_character() {
    let mut store = CharacterStore::new();
    create_character(&mut store, 1, request(9, "Aria"), 0).unwrap();
    assert_eq!(update_character_location(&mut store, 1, 0xabc, 55), Ok(()));
    let c = get_character_by_id(&store, 1).unwrap();
    assert_eq!((c.location_id, c.updated_at), (0xabc, 55));
    let before = store.character_rows().clone();
    assert_eq!(
        update_character_location(&mut store, 2, 0xdef, 66),
        Err(UpdateLocationError::NotFound)
    );
    assert_eq!(store.character_rows(), &before);
    assert_eq!(
        update_character_location(&mut CharacterStore::new(), 1, 0xdef, 66),
        Err(UpdateLocationError::NotFound)
    );
}

#[test]
fn location_info_is_found_by_id() {
    let tavern = Location {
        id: STARTING_LOCATION,
        town_id: 1,
        name: String::from("Tavern"),
        description: Some(String::from("Rest and rumors")),
        icon: String::from("t"),
        location_type: LocationType::Social,
        map_position_x: 12.5_f32.to_bits(),
        map_position_y: 80.0_f32.to_bits(),
        required_level: 1,
        required_quest_id: None,
        is_active: true,
        sort_order: 5,
        created_at: 0,
        updated_at: 0,
    };
    let catalog = WorldCatalog::from_rows(Vec::new(), vec![tavern.clone()], Vec::new()).unwrap();
    assert_eq!(get_character_location_info(&catalog, STARTING_LOCATION), Some(&tavern));
    assert_eq!(get_character_location_info(&catalog, 3), None);
}
