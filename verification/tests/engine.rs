use my_rust_shinobi::catalog::{
    ActionCategory, ActionRewards, ActionType, ItemReward, Location, LocationAction,
    LocationType, StatChanges, Town, UnlockReward, WorldCatalog, CHANCE_ALWAYS,
};
use my_rust_shinobi::character::{
    ActionCooldown, Character, CharacterClass, CompletedAction, InventoryItem,
};
use my_rust_shinobi::eligibility::{evaluate, EligibilityResult, IneligibleReason};
use my_rust_shinobi::engine::{
    execute_action, get_available_actions, ExecutionError, MissingEntity,
};
use my_rust_shinobi::store::CharacterStore;

const TOWN: u128 = 0xa1;
const TAVERN: u128 = 0xb1;
const ARENA: u128 = 0xb2;
const CLOSED: u128 = 0xb3;
const HERO: u128 = 0xc1;
const ACTION: u128 = 0xd1;
const POTION: u128 = 0xe1;
const T: i64 = 1_700_000_000;

fn town(id: u128) -> Town {
    Town {
        id,
        name: String::from("Eldoria"),
        description: None,
        region: String::from("starting_zone"),
        required_level: 1,
        map_image: None,
        is_safe_zone: true,
        created_at: 0,
        updated_at: 0,
    }
}

fn location(id: u128, town_id: u128, is_active: bool) -> Location {
    Location {
        id,
        town_id,
        name: String::from("Tavern"),
        description: None,
        icon: String::from("t"),
        location_type: LocationType::Social,
        map_position_x: 0,
        map_position_y: 0,
        required_level: 1,
        required_quest_id: None,
        is_active,
        sort_order: 0,
        created_at: 0,
        updated_at: 0,
    }
}

fn no_rewards() -> ActionRewards {
    ActionRewards {
        gold: None,
        experience: None,
        items: Vec::new(),
        stat_changes: None,
        unlocks: Vec::new(),
        teleport_to: None,
    }
}

fn action(id: u128, location_id: u128) -> LocationAction {
    LocationAction {
        id,
        location_id,
        name: String::from("Rest"),
        description: None,
        icon: String::from("r"),
        action_type: ActionType::Instant,
        category: ActionCategory::Rest,
        required_level: 1,
        required_gold: 0,
        required_item_id: None,
        required_item_quantity: 0,
        action_points_cost: 0,
        cooldown_seconds: 0,
        duration_seconds: 0,
        rewards: no_rewards(),
        is_repeatable: true,
        is_active: true,
        sort_order: 0,
        created_at: 0,
        updated_at: 0,
    }
}

fn hero() -> Character {
    Character {
        id: HERO,
        player_id: 0xf1,
        name: String::from("Aria"),
        level: 1,
        experience: 0,
        health: 100,
        max_health: 100,
        mana: 50,
        max_mana: 50,
        strength: 10,
        dexterity: 10,
        intelligence: 10,
        constitution: 10,
        wisdom: 10,
        charisma: 10,
        gold: 100,
        action_points: 10,
        max_action_points: 10,
        character_class: CharacterClass::Adventurer,
        created_at: 0,
        updated_at: 0,
        location_id: TAVERN,
    }
}

fn world(actions: Vec<LocationAction>) -> WorldCatalog {
    WorldCatalog::from_rows(
        vec![town(TOWN)],
        vec![
            location(TAVERN, TOWN, true),
            location(ARENA, TOWN, true),
            location(CLOSED, TOWN, false),
        ],
        actions,
    )
    .expect("the rows make a catalog")
}

fn store_with(character: Character) -> CharacterStore {
    CharacterStore::from_rows(vec![character], Vec::new(), Vec::new(), Vec::new())
        .expect("the rows make a store")
}

fn the_hero(store: &CharacterStore) -> &Character {
    &store.character_rows()[0]
}

fn cooldown_of(store: &CharacterStore) -> Option<i64> {
    store
        .cooldown_rows()
        .iter()
        .find(|c| c.character_id == HERO && c.action_id == ACTION)
        .map(|c| c.available_at)
}

fn same_rows(a: &CharacterStore, b: &CharacterStore) -> bool {
    a.character_rows() == b.character_rows()
        && a.cooldown_rows() == b.cooldown_rows()
        && a.completed_rows() == b.completed_rows()
        && a.inventory_rows() == b.inventory_rows()
}

#[test]
fn low_level_character_is_refused_without_state_change() {
    let mut act = action(ACTION, TAVERN);
    act.required_level = 5;
    let catalog = world(vec![act]);
    let mut c = hero();
    c.gold = 10;
    let mut store = store_with(c);
    let before = store.clone();
    let result = execute_action(&catalog, &mut store, HERO, ACTION, T, &Vec::new());
    assert_eq!(
        result,
        Err(ExecutionError::Ineligible(IneligibleReason::InsufficientLevel))
    );
    assert!(same_rows(&store, &before));
    assert_eq!(the_hero(&store).gold, 10);
    assert_eq!(the_hero(&store).level, 1);
}

#[test]
fn paid_action_with_cooldown_runs_once_per_cooldown() {
    let mut act = action(ACTION, TAVERN);
    act.required_gold = 25;
    act.cooldown_seconds = 60;
    act.rewards.gold = Some(10);
    let catalog = world(vec![act]);
    let mut store = store_with(hero());

    let first = execute_action(&catalog, &mut store, HERO, ACTION, T, &Vec::new())
        .expect("the first execution succeeds");
    assert_eq!(first.character.gold, 85);
    assert_eq!(first.outcome.gold, Some(10));
    assert_eq!(the_hero(&store).gold, 85);
    assert_eq!(cooldown_of(&store), Some(T + 60));

    let during = store.clone();
    let second = execute_action(&catalog, &mut store, HERO, ACTION, T + 30, &Vec::new());
    assert_eq!(
        second,
        Err(ExecutionError::Ineligible(IneligibleReason::OnCooldown))
    );
    assert!(same_rows(&store, &during));

    let third = execute_action(&catalog, &mut store, HERO, ACTION, T + 61, &Vec::new())
        .expect("the execution after the cooldown succeeds");
    assert_eq!(third.character.gold, 70);
    assert_eq!(the_hero(&store).gold, 70);
    assert_eq!(cooldown_of(&store), Some(T + 61 + 60));
}

#[test]
fn teleport_moves_the_character_whatever_its_location() {
    let mut act = action(ACTION, TAVERN);
    act.rewards.teleport_to = Some(ARENA);
    let catalog = world(vec![act]);
    for start in [TAVERN, ARENA, 0x1234_u128] {
        let mut c = hero();
        c.location_id = start;
        let mut store = store_with(c);
        let done = execute_action(&catalog, &mut store, HERO, ACTION, T, &Vec::new())
            .expect("the execution succeeds");
        assert_eq!(done.outcome.teleport_to, Some(ARENA));
        assert_eq!(done.character.location_id, ARENA);
        assert_eq!(the_hero(&store).location_id, ARENA);
    }
}

#[test]
fn two_executions_in_rapid_succession_give_one_success() {
    let mut act = action(ACTION, TAVERN);
    act.cooldown_seconds = 5;
    let catalog = world(vec![act]);
    let mut store = store_with(hero());
    let first = execute_action(&catalog, &mut store, HERO, ACTION, T, &Vec::new());
    let second = execute_action(&catalog, &mut store, HERO, ACTION, T, &Vec::new());
    assert!(first.is_ok());
    assert_eq!(
        second,
        Err(ExecutionError::Ineligible(IneligibleReason::OnCooldown))
    );
    assert_eq!(store.completed_rows().len(), 1);
    assert_eq!(store.completed_rows()[0].times_completed, 1);
}

#[test]
fn second_execution_names_the_requirement_that_fails_first() {
    let mut act = action(ACTION, TAVERN);
    act.cooldown_seconds = 60;
    act.required_gold = 100;
    let catalog = world(vec![act]);
    let mut store = store_with(hero());
    assert!(execute_action(&catalog, &mut store, HERO, ACTION, T, &Vec::new()).is_ok());
    assert_eq!(the_hero(&store).gold, 0);
    let second = execute_action(&catalog, &mut store, HERO, ACTION, T + 1, &Vec::new());
    assert_eq!(
        second,
        Err(ExecutionError::Ineligible(IneligibleReason::InsufficientCurrency))
    );
}

#[test]
fn cooldown_ends_exactly_at_available_at() {
    let mut act = action(ACTION, TAVERN);
    act.cooldown_seconds = 60;
    let catalog = world(vec![act]);
    let mut store = store_with(hero());
    assert!(execute_action(&catalog, &mut store, HERO, ACTION, T, &Vec::new()).is_ok());
    let early = execute_action(&catalog, &mut store, HERO, ACTION, T + 59, &Vec::new());
    assert_eq!(
        early,
        Err(ExecutionError::Ineligible(IneligibleReason::OnCooldown))
    );
    assert!(execute_action(&catalog, &mut store, HERO, ACTION, T + 60, &Vec::new()).is_ok());
}

#[test]
fn cooldown_is_reset_not_extended() {
    let mut act = action(ACTION, TAVERN);
    act.cooldown_seconds = 60;
    let catalog = world(vec![act]);
    let stale = ActionCooldown { character_id: HERO, action_id: ACTION, available_at: T - 5 };
    let mut store =
        CharacterStore::from_rows(vec![hero()], vec![stale], Vec::new(), Vec::new()).unwrap();
    assert!(execute_action(&catalog, &mut store, HERO, ACTION, T, &Vec::new()).is_ok());
    assert_eq!(store.cooldown_rows().len(), 1);
    assert_eq!(cooldown_of(&store), Some(T + 60));
}

#[test]
fn cooldown_end_stops_at_the_last_point_in_time() {
    let mut act = action(ACTION, TAVERN);
    act.cooldown_seconds = 60;
    let catalog = world(vec![act]);
    let mut store = store_with(hero());
    assert!(execute_action(&catalog, &mut store, HERO, ACTION, i64::MAX - 10, &Vec::new()).is_ok());
    assert_eq!(cooldown_of(&store), Some(i64::MAX));
}

#[test]
fn action_without_cooldown_leaves_no_cooldown_row() {
    let catalog = world(vec![action(ACTION, TAVERN)]);
    let mut store = store_with(hero());
    assert!(execute_action(&catalog, &mut store, HERO, ACTION, T, &Vec::new()).is_ok());
    assert!(store.cooldown_rows().is_empty());
    assert!(execute_action(&catalog, &mut store, HERO, ACTION, T, &Vec::new()).is_ok());
    assert_eq!(store.completed_rows()[0].times_completed, 2);
    assert_eq!(store.completed_rows()[0].completed_at, T);
}

#[test]
fn missing_character_is_not_found() {
    let catalog = world(vec![action(ACTION, TAVERN)]);
    let mut store = store_with(hero());
    let result = execute_action(&catalog, &mut store, 0x999, ACTION, T, &Vec::new());
    assert_eq!(result, Err(ExecutionError::NotFound(MissingEntity::Character)));
}

#[test]
fn missing_or_inactive_action_is_not_found() {
    let mut off = action(0xd2, TAVERN);
    off.is_active = false;
    let catalog = world(vec![action(ACTION, TAVERN), off]);
    let mut store = store_with(hero());
    let before = store.clone();
    let missing = execute_action(&catalog, &mut store, HERO, 0xd9, T, &Vec::new());
    assert_eq!(missing, Err(ExecutionError::NotFound(MissingEntity::Action)));
    let inactive = execute_action(&catalog, &mut store, HERO, 0xd2, T, &Vec::new());
    assert_eq!(inactive, Err(ExecutionError::NotFound(MissingEntity::Action)));
    assert!(same_rows(&store, &before));
}

#[test]
fn action_without_location_or_town_is_not_found() {
    let catalog = WorldCatalog::from_rows(
        vec![town(TOWN)],
        vec![location(TAVERN, 0xa9, true)],
        vec![action(ACTION, TAVERN), action(0xd2, 0xb9)],
    )
    .unwrap();
    let mut store = store_with(hero());
    let no_town = execute_action(&catalog, &mut store, HERO, ACTION, T, &Vec::new());
    assert_eq!(no_town, Err(ExecutionError::NotFound(MissingEntity::Town)));
    let no_location = execute_action(&catalog, &mut store, HERO, 0xd2, T, &Vec::new());
    assert_eq!(no_location, Err(ExecutionError::NotFound(MissingEntity::Location)));
}

#[test]
fn inactive_location_makes_the_action_ineligible() {
    let catalog = world(vec![action(ACTION, CLOSED)]);
    let mut store = store_with(hero());
    let result = execute_action(&catalog, &mut store, HERO, ACTION, T, &Vec::new());
    assert_eq!(
        result,
        Err(ExecutionError::Ineligible(IneligibleReason::LocationInactive))
    );
}

#[test]
fn each_requirement_has_its_reason() {
    let mut gold = action(0x01, TAVERN);
    gold.required_gold = 101;
    let mut points = action(0x02, TAVERN);
    points.action_points_cost = 11;
    let mut item = action(0x03, TAVERN);
    item.required_item_id = Some(POTION);
    item.required_item_quantity = 1;
    let mut once = action(0x04, TAVERN);
    once.is_repeatable = false;
    let catalog = world(vec![gold, points, item, once]);
    let mut store = store_with(hero());
    let run = |store: &mut CharacterStore, id: u128| {
        execute_action(&catalog, store, HERO, id, T, &Vec::new()).err()
    };
    assert_eq!(
        run(&mut store, 0x01),
        Some(ExecutionError::Ineligible(IneligibleReason::InsufficientCurrency))
    );
    assert_eq!(
        run(&mut store, 0x02),
        Some(ExecutionError::Ineligible(IneligibleReason::InsufficientActionPoints))
    );
    assert_eq!(
        run(&mut store, 0x03),
        Some(ExecutionError::Ineligible(IneligibleReason::MissingRequiredItem))
    );
    assert_eq!(run(&mut store, 0x04), None);
    assert_eq!(
        run(&mut store, 0x04),
        Some(ExecutionError::Ineligible(IneligibleReason::AlreadyCompleted))
    );
}

#[test]
fn checks_run_in_their_order() {
    let mut act = action(ACTION, CLOSED);
    act.required_level = 9;
    act.required_gold = 1000;
    act.action_points_cost = 1000;
    act.required_item_id = Some(POTION);
    act.required_item_quantity = 3;
    act.is_repeatable = false;
    let mut c = hero();
    let cooldown = ActionCooldown { character_id: HERO, action_id: ACTION, available_at: T + 1 };
    let done = CompletedAction {
        character_id: HERO,
        action_id: ACTION,
        completed_at: 0,
        times_completed: 1,
    };
    let verdict = |a: &LocationAction, c: &Character, items: Vec<InventoryItem>| {
        let catalog = world(vec![a.clone()]);
        let store =
            CharacterStore::from_rows(vec![c.clone()], vec![cooldown], vec![done], items).unwrap();
        evaluate(&catalog, &store, &store.character_rows()[0], a, T)
    };
    let ineligible = EligibilityResult::Ineligible;
    assert_eq!(verdict(&act, &c, Vec::new()), ineligible(IneligibleReason::LocationInactive));
    act.location_id = TAVERN;
    assert_eq!(verdict(&act, &c, Vec::new()), ineligible(IneligibleReason::InsufficientLevel));
    c.level = 9;
    assert_eq!(verdict(&act, &c, Vec::new()), ineligible(IneligibleReason::InsufficientCurrency));
    c.gold = 1000;
    assert_eq!(
        verdict(&act, &c, Vec::new()),
        ineligible(IneligibleReason::InsufficientActionPoints)
    );
    c.action_points = 1000;
    c.max_action_points = 1000;
    assert_eq!(verdict(&act, &c, Vec::new()), ineligible(IneligibleReason::MissingRequiredItem));
    let potions = |quantity: i32| {
        vec![InventoryItem {
            character_id: HERO,
            item_id: POTION,
            quantity,
            equipped: false,
            slot: None,
        }]
    };
    assert_eq!(verdict(&act, &c, potions(2)), ineligible(IneligibleReason::MissingRequiredItem));
    assert_eq!(verdict(&act, &c, potions(3)), ineligible(IneligibleReason::OnCooldown));
    act.id = 0xd7;
    assert_eq!(verdict(&act, &c, potions(3)), EligibilityResult::Eligible);
    act.id = ACTION;
    let catalog = world(vec![act.clone()]);
    let store =
        CharacterStore::from_rows(vec![c.clone()], Vec::new(), vec![done], potions(3)).unwrap();
    assert_eq!(
        evaluate(&catalog, &store, &store.character_rows()[0], &act, T),
        ineligible(IneligibleReason::AlreadyCompleted)
    );
}

#[test]
fn inactive_action_is_reported_by_the_evaluator() {
    let mut act = action(ACTION, TAVERN);
    act.is_active = false;
    let catalog = world(vec![act.clone()]);
    let store = store_with(hero());
    assert_eq!(
        evaluate(&catalog, &store, the_hero(&store), &act, T),
        EligibilityResult::Ineligible(IneligibleReason::LocationInactive)
    );
}

#[test]
fn expired_cooldown_counts_as_absent() {
    let act = action(ACTION, TAVERN);
    let catalog = world(vec![act.clone()]);
    let expired = ActionCooldown { character_id: HERO, action_id: ACTION, available_at: T };
    let store =
        CharacterStore::from_rows(vec![hero()], vec![expired], Vec::new(), Vec::new()).unwrap();
    assert_eq!(
        evaluate(&catalog, &store, the_hero(&store), &act, T),
        EligibilityResult::Eligible
    );
}

#[test]
fn costs_are_taken_and_rewards_applied() {
    let mut act = action(ACTION, TAVERN);
    act.required_gold = 30;
    act.action_points_cost = 4;
    act.required_item_id = Some(POTION);
    act.required_item_quantity = 2;
    act.rewards = ActionRewards {
        gold: Some(7),
        experience: Some(120),
        items: vec![
            ItemReward { item_id: 0xe2, quantity: 3, chance: CHANCE_ALWAYS },
            ItemReward { item_id: 0xe3, quantity: 1, chance: 0.5_f32.to_bits() },
            ItemReward { item_id: POTION, quantity: 1, chance: 0.5_f32.to_bits() },
        ],
        stat_changes: Some(StatChanges {
            health: Some(-40),
            mana: Some(10),
            strength: Some(2),
            dexterity: None,
            intelligence: None,
            constitution: None,
            wisdom: None,
            charisma: Some(-1),
        }),
        unlocks: vec![UnlockReward { unlock_type: String::from("quest"), target_id: 0x77 }],
        teleport_to: None,
    };
    let catalog = world(vec![act]);
    let potions = InventoryItem {
        character_id: HERO,
        item_id: POTION,
        quantity: 2,
        equipped: false,
        slot: None,
    };
    let worn = InventoryItem {
        character_id: HERO,
        item_id: POTION,
        quantity: 1,
        equipped: true,
        slot: Some(String::from("belt")),
    };
    let mut store =
        CharacterStore::from_rows(vec![hero()], Vec::new(), Vec::new(), vec![potions, worn.clone()])
            .unwrap();
    let samples = vec![0.99_f32.to_bits(), 0.75_f32.to_bits(), 0.25_f32.to_bits()];
    let done = execute_action(&catalog, &mut store, HERO, ACTION, T, &samples).unwrap();

    assert_eq!(done.outcome.items.len(), 2);
    assert_eq!((done.outcome.items[0].item_id, done.outcome.items[0].quantity), (0xe2, 3));
    assert_eq!((done.outcome.items[1].item_id, done.outcome.items[1].quantity), (POTION, 1));
    assert_eq!(done.outcome.unlocks.len(), 1);
    assert_eq!(done.outcome.unlocks[0].unlock_type, "quest");
    assert_eq!(done.outcome.unlocks[0].target_id, 0x77);

    let c = the_hero(&store);
    assert_eq!(c.gold, 77);
    assert_eq!(c.action_points, 6);
    assert_eq!(c.experience, 120);
    assert_eq!(c.health, 60);
    assert_eq!(c.mana, 50);
    assert_eq!(c.strength, 12);
    assert_eq!(c.charisma, 9);
    assert_eq!(c.dexterity, 10);
    assert_eq!(c.level, 1);
    assert_eq!(c.updated_at, T);
    assert_eq!(done.character.gold, 77);
    assert_eq!(done.character.health, 60);
    assert_eq!(done.character.id, HERO);

    let lines = store.inventory_rows();
    assert_eq!(lines.len(), 3);
    assert!(lines.contains(&worn));
    let loose = |item: u128| {
        lines
            .iter()
            .find(|l| l.item_id == item && l.slot.is_none())
            .map(|l| (l.quantity, l.equipped))
    };
    assert_eq!(loose(0xe2), Some((3, false)));
    assert_eq!(loose(0xe3), None);
    assert_eq!(loose(POTION), Some((1, false)));
    assert_eq!(store.completed_rows().len(), 1);
    assert_eq!(store.completed_rows()[0].completed_at, T);
}

#[test]
fn required_item_line_is_deleted_at_zero_and_kept_above() {
    let mut act = action(ACTION, TAVERN);
    act.required_item_id = Some(POTION);
    act.required_item_quantity = 2;
    let catalog = world(vec![act]);
    let line = |quantity: i32| InventoryItem {
        character_id: HERO,
        item_id: POTION,
        quantity,
        equipped: false,
        slot: None,
    };
    let mut store =
        CharacterStore::from_rows(vec![hero()], Vec::new(), Vec::new(), vec![line(5)]).unwrap();
    assert!(execute_action(&catalog, &mut store, HERO, ACTION, T, &Vec::new()).is_ok());
    assert_eq!(store.inventory_rows(), &vec![line(3)]);
    assert!(execute_action(&catalog, &mut store, HERO, ACTION, T, &Vec::new()).is_ok());
    assert_eq!(store.inventory_rows(), &vec![line(1)]);
    let third = execute_action(&catalog, &mut store, HERO, ACTION, T, &Vec::new());
    assert_eq!(
        third,
        Err(ExecutionError::Ineligible(IneligibleReason::MissingRequiredItem))
    );
    let mut exact =
        CharacterStore::from_rows(vec![hero()], Vec::new(), Vec::new(), vec![line(2)]).unwrap();
    assert!(execute_action(&catalog, &mut exact, HERO, ACTION, T, &Vec::new()).is_ok());
    assert!(exact.inventory_rows().is_empty());
}

#[test]
fn equipped_items_do_not_pay_for_an_action() {
    let mut act = action(ACTION, TAVERN);
    act.required_item_id = Some(POTION);
    act.required_item_quantity = 1;
    let catalog = world(vec![act]);
    let worn = InventoryItem {
        character_id: HERO,
        item_id: POTION,
        quantity: 3,
        equipped: true,
        slot: Some(String::from("belt")),
    };
    let mut store =
        CharacterStore::from_rows(vec![hero()], Vec::new(), Vec::new(), vec![worn.clone()])
            .unwrap();
    let result = execute_action(&catalog, &mut store, HERO, ACTION, T, &Vec::new());
    assert_eq!(
        result,
        Err(ExecutionError::Ineligible(IneligibleReason::MissingRequiredItem))
    );
    assert_eq!(store.inventory_rows(), &vec![worn]);
}

#[test]
fn available_actions_are_listed_by_sort_order_then_name() {
    let act = |id: u128, sort_order: i32, name: &str| {
        let mut a = action(id, TAVERN);
        a.sort_order = sort_order;
        a.name = String::from(name);
        a
    };
    let catalog = world(vec![
        act(0x01, 5, "Rest"),
        act(0x02, 1, "Train"),
        act(0x03, 5, "Drink"),
        act(0x04, 1, "Spar"),
        act(0x05, 1, "Train"),
        act(0x06, 0, "Zzz"),
    ]);
    let cooldowns = vec![ActionCooldown { character_id: HERO, action_id: 0x04, available_at: T + 1 }];
    let store =
        CharacterStore::from_rows(vec![hero()], cooldowns, Vec::new(), Vec::new()).unwrap();
    let listed = get_available_actions(&catalog, &store, TAVERN, HERO, 1, T);
    let ids: Vec<u128> = listed.iter().map(|a| a.id).collect();
    assert_eq!(ids, vec![0x06, 0x02, 0x05, 0x03, 0x01]);
    let later: Vec<u128> = get_available_actions(&catalog, &store, TAVERN, HERO, 1, T + 1)
        .iter()
        .map(|a| a.id)
        .collect();
    assert_eq!(later, vec![0x06, 0x04, 0x02, 0x05, 0x03, 0x01]);
}

#[test]
fn failed_execution_leaves_balances_as_they_were() {
    let mut act = action(ACTION, TAVERN);
    act.required_gold = 40;
    act.action_points_cost = 11;
    act.rewards.gold = Some(500);
    let catalog = world(vec![act]);
    let mut store = store_with(hero());
    let before = store.clone();
    let result = execute_action(&catalog, &mut store, HERO, ACTION, T, &Vec::new());
    assert_eq!(
        result,
        Err(ExecutionError::Ineligible(IneligibleReason::InsufficientActionPoints))
    );
    assert_eq!(the_hero(&store).gold, 100);
    assert_eq!(the_hero(&store).action_points, 10);
    assert!(same_rows(&store, &before));
}

#[test]
fn other_characters_are_untouched() {
    let mut act = action(ACTION, TAVERN);
    act.required_gold = 10;
    act.cooldown_seconds = 30;
    let catalog = world(vec![act]);
    let mut other = hero();
    other.id = 0xc2;
    other.name = String::from("Borin");
    let mut store =
        CharacterStore::from_rows(vec![other.clone(), hero()], Vec::new(), Vec::new(), Vec::new())
            .unwrap();
    assert!(execute_action(&catalog, &mut store, HERO, ACTION, T, &Vec::new()).is_ok());
    assert_eq!(store.character_rows()[0], other);
    assert_eq!(store.character_rows()[1].gold, 90);
    assert!(execute_action(&catalog, &mut store, 0xc2, ACTION, T, &Vec::new()).is_ok());
    assert_eq!(store.cooldown_rows().len(), 2);
}

#[test]
fn available_actions_respect_location_level_and_cooldowns() {
    let mut hard = action(0x02, TAVERN);
    hard.required_level = 3;
    let mut off = action(0x03, TAVERN);
    off.is_active = false;
    let elsewhere = action(0x04, ARENA);
    let cooling = action(0x05, TAVERN);
    let cooled = action(0x06, TAVERN);
    let catalog = world(vec![action(0x01, TAVERN), hard, off, elsewhere, cooling, cooled]);
    let cooldowns = vec![
        ActionCooldown { character_id: HERO, action_id: 0x05, available_at: T + 1 },
        ActionCooldown { character_id: HERO, action_id: 0x06, available_at: T },
        ActionCooldown { character_id: 0xc2, action_id: 0x01, available_at: T + 100 },
    ];
    let store =
        CharacterStore::from_rows(vec![hero()], cooldowns, Vec::new(), Vec::new()).unwrap();
    let ids = |level: i32, now: i64| -> Vec<u128> {
        get_available_actions(&catalog, &store, TAVERN, HERO, level, now)
            .iter()
            .map(|a| a.id)
            .collect()
    };
    assert_eq!(ids(1, T), vec![0x01, 0x06]);
    assert_eq!(ids(3, T), vec![0x01, 0x02, 0x06]);
    assert_eq!(ids(3, T + 1), vec![0x01, 0x02, 0x05, 0x06]);
    assert_eq!(ids(0, T), Vec::<u128>::new());
    let there: Vec<u128> = get_available_actions(&catalog, &store, ARENA, HERO, 1, T)
        .iter()
        .map(|a| a.id)
        .collect();
    assert_eq!(there, vec![0x04]);
}
