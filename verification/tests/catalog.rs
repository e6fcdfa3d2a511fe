use my_rust_shinobi::catalog::{
    get_action_by_id, get_actions_by_location, get_location_by_id, get_locations_by_town,
    get_starting_town, get_town_by_id, ActionCategory, ActionRewards, ActionType, ItemReward,
    Location, LocationAction, LocationType, StatChanges, Town, WorldCatalog, CHANCE_ALWAYS,
};
use my_rust_shinobi::listing::text_not_after;

fn town(id: u128) -> Town {
    Town {
        id,
        name: format!("town-{id}"),
        description: None,
        region: String::from("starting_zone"),
        required_level: 1,
        map_image: None,
        is_safe_zone: true,
        created_at: 0,
        updated_at: 0,
    }
}

fn location(id: u128, town_id: u128, is_active: bool) -> Location {
    Location {
        id,
        town_id,
        name: format!("location-{id}"),
        description: None,
        icon: String::from("x"),
        location_type: LocationType::Shop,
        map_position_x: 0,
        map_position_y: 0,
        required_level: 1,
        required_quest_id: None,
        is_active,
        sort_order: 0,
        created_at: 0,
        updated_at: 0,
    }
}

fn action(id: u128, location_id: u128, is_active: bool) -> LocationAction {
    LocationAction {
        id,
        location_id,
        name: format!("action-{id}"),
        description: None,
        icon: String::from("x"),
        action_type: ActionType::Timed,
        category: ActionCategory::Craft,
        required_level: 1,
        required_gold: 0,
        required_item_id: None,
        required_item_quantity: 0,
        action_points_cost: 0,
        cooldown_seconds: 0,
        duration_seconds: 0,
        rewards: ActionRewards::default(),
        is_repeatable: true,
        is_active,
        sort_order: 0,
        created_at: 0,
        updated_at: 0,
    }
}

#[test]
fn rows_are_found_by_id() {
    let catalog = WorldCatalog::from_rows(
        vec![town(1), town(2)],
        vec![location(10, 1, true), location(11, 2, false)],
        vec![action(20, 10, true), action(21, 11, false)],
    )
    .unwrap();
    assert_eq!(get_town_by_id(&catalog, 2), Some(&town(2)));
    assert_eq!(get_town_by_id(&catalog, 3), None);
    assert_eq!(get_location_by_id(&catalog, 11), Some(&location(11, 2, false)));
    assert_eq!(get_location_by_id(&catalog, 1), None);
    assert_eq!(get_action_by_id(&catalog, 21), Some(&action(21, 11, false)));
    assert_eq!(get_action_by_id(&catalog, 10), None);
    let empty = WorldCatalog::new();
    assert_eq!(get_town_by_id(&empty, 1), None);
    assert_eq!(get_action_by_id(&empty, 20), None);
}

#[test]
fn repeated_ids_are_refused() {
    assert!(WorldCatalog::from_rows(vec![town(1), town(1)], Vec::new(), Vec::new()).is_none());
    let locations = vec![location(10, 1, true), location(10, 2, true)];
    assert!(WorldCatalog::from_rows(Vec::new(), locations, Vec::new()).is_none());
    let actions = vec![action(20, 10, true), action(21, 10, true), action(20, 11, true)];
    assert!(WorldCatalog::from_rows(Vec::new(), Vec::new(), actions).is_none());
    let mixed = WorldCatalog::from_rows(
        vec![town(1)],
        vec![location(1, 1, true)],
        vec![action(1, 1, true)],
    );
    assert!(mixed.is_some());
}

#[test]
fn invalid_actions_are_refused() {
    let refused = |change: fn(&mut LocationAction)| {
        let mut a = action(20, 10, true);
        change(&mut a);
        let ok = a.is_valid();
        let built = WorldCatalog::from_rows(Vec::new(), Vec::new(), vec![a]).is_some();
        assert_eq!(ok, built);
        !built
    };
    assert!(refused(|a| a.cooldown_seconds = -1));
    assert!(refused(|a| a.action_points_cost = -1));
    assert!(refused(|a| a.required_gold = -1));
    assert!(refused(|a| a.rewards.items.push(ItemReward {
        item_id: 1,
        quantity: 1,
        chance: 1.5_f32.to_bits()
    })));
    assert!(refused(|a| a.rewards.items.push(ItemReward {
        item_id: 1,
        quantity: 1,
        chance: (-0.5_f32).to_bits()
    })));
    assert!(refused(|a| a.rewards.items.push(ItemReward {
        item_id: 1,
        quantity: 1,
        chance: f32::NAN.to_bits()
    })));
    assert!(!refused(|a| a.rewards.items.push(ItemReward {
        item_id: 1,
        quantity: -1,
        chance: CHANCE_ALWAYS
    })));
    assert!(!refused(|a| a.rewards.items.push(ItemReward {
        item_id: 1,
        quantity: 1,
        chance: 0.0_f32.to_bits()
    })));
    assert!(!refused(|a| a.required_level = -4));
    assert!(!refused(|a| a.duration_seconds = -4));
    assert!(!refused(|a| a.required_item_quantity = -4));
    assert!(!refused(|a| a.cooldown_seconds = i32::MAX));
}

#[test]
fn texts_are_put_in_order_character_by_character() {
    assert!(text_not_after("", ""));
    assert!(text_not_after("", "a"));
    assert!(!text_not_after("a", ""));
    assert!(text_not_after("a", "a"));
    assert!(text_not_after("a", "b"));
    assert!(!text_not_after("b", "a"));
    assert!(text_not_after("ab", "abc"));
    assert!(!text_not_after("abc", "ab"));
    assert!(text_not_after("abc", "abd"));
    assert!(text_not_after("Z", "a"));
    assert!(!text_not_after("a", "Z"));
    assert!(text_not_after("z", "é"));
    assert!(!text_not_after("é", "z"));
    for (a, b) in [("Rest", "Train"), ("", "x"), ("ab", "ab"), ("é", "e"), ("10", "9")] {
        assert_eq!(text_not_after(a, b), a <= b);
        assert_eq!(text_not_after(b, a), b <= a);
    }
}

#[test]
fn rows_are_listed_by_sort_order_then_name() {
    let place = |id: u128, sort_order: i32, name: &str| {
        let mut l = location(id, 1, true);
        l.sort_order = sort_order;
        l.name = String::from(name);
        l
    };
    let act = |id: u128, sort_order: i32, name: &str| {
        let mut a = action(id, 10, true);
        a.sort_order = sort_order;
        a.name = String::from(name);
        a
    };
    let catalog = WorldCatalog::from_rows(
        vec![town(1)],
        vec![
            place(10, 3, "Tavern"),
            place(11, 1, "Temple"),
            place(12, 2, "Market"),
            place(13, 1, "Arena"),
            place(14, -1, "Gates"),
        ],
        vec![
            act(20, 2, "Rest"),
            act(21, 1, "Train"),
            act(22, 2, "Drink"),
            act(23, 1, "Train"),
            act(24, 2, "Rest"),
            act(25, i32::MIN, "Zzz"),
            act(26, 1, "Trai"),
        ],
    )
    .unwrap();
    let locations: Vec<u128> = get_locations_by_town(&catalog, 1).iter().map(|l| l.id).collect();
    assert_eq!(locations, vec![14, 13, 11, 12, 10]);
    let listed = get_actions_by_location(&catalog, 10);
    let actions: Vec<u128> = listed.iter().map(|a| a.id).collect();
    assert_eq!(actions, vec![25, 26, 21, 23, 22, 20, 24]);
    for pair in listed.windows(2) {
        assert!((pair[0].sort_order, &pair[0].name) <= (pair[1].sort_order, &pair[1].name));
    }
}

#[test]
fn starting_town_is_the_lowest_of_the_starting_region() {
    let place = |id: u128, region: &str, required_level: i32| {
        let mut t = town(id);
        t.region = String::from(region);
        t.required_level = required_level;
        t
    };
    let find = |towns: Vec<Town>| {
        let catalog = WorldCatalog::from_rows(towns, Vec::new(), Vec::new()).unwrap();
        get_starting_town(&catalog).map(|t| t.id)
    };
    assert_eq!(find(Vec::new()), None);
    assert_eq!(find(vec![place(1, "north", 1), place(2, "Starting_zone", 1)]), None);
    assert_eq!(find(vec![place(1, "north", 1), place(2, "starting_zone", 9)]), Some(2));
    assert_eq!(
        find(vec![
            place(1, "starting_zone", 5),
            place(2, "north", 1),
            place(3, "starting_zone", 2),
            place(4, "starting_zone", 2),
            place(5, "starting_zone", 3),
        ]),
        Some(3)
    );
    assert_eq!(
        find(vec![place(1, "starting_zone", 2), place(2, "starting_zone", 2)]),
        Some(1)
    );
}

#[test]
fn active_rows_of_one_sort_order_are_listed_by_name() {
    let catalog = WorldCatalog::from_rows(
        vec![town(1), town(2)],
        vec![
            location(12, 1, true),
            location(10, 1, false),
            location(11, 2, true),
            location(13, 1, true),
        ],
        vec![
            action(23, 12, true),
            action(20, 12, false),
            action(21, 13, true),
            action(22, 12, true),
        ],
    )
    .unwrap();
    let locations: Vec<u128> = get_locations_by_town(&catalog, 1).iter().map(|l| l.id).collect();
    assert_eq!(locations, vec![12, 13]);
    assert!(get_locations_by_town(&catalog, 3).is_empty());
    let actions: Vec<u128> = get_actions_by_location(&catalog, 12).iter().map(|a| a.id).collect();
    assert_eq!(actions, vec![22, 23]);
    assert!(get_actions_by_location(&catalog, 10).is_empty());
    assert_eq!(catalog.action_list().len(), 4);
    assert_eq!(catalog.location_list().len(), 4);
}

#[test]
fn defaults_name_no_effect() {
    let changes = StatChanges::default();
    assert_eq!(changes.health, None);
    assert_eq!(changes.charisma, None);
    let rewards = ActionRewards::default();
    assert_eq!(rewards.gold, None);
    assert!(rewards.items.is_empty());
    assert!(rewards.unlocks.is_empty());
    assert_eq!(rewards.teleport_to, None);
}
