//! The action resolution engine: executing an action for a character.
//!
//! An execution loads the character and the action, asks the eligibility
//! evaluator, and only on its consent takes the cost, applies the rewards,
//! starts the cooldown and records the completion. An execution that fails
//! leaves the store as it was.

use vstd::prelude::*;
use crate::catalog::{
    get_action_by_id, get_location_by_id, get_town_by_id, Id, LocationAction, Timestamp,
    WorldCatalog,
};
use crate::character::Character;
use crate::completion::record_completed_action;
use crate::cooldown::{cooldown_end, is_action_on_cooldown, set_action_cooldown};
use crate::eligibility::{eligibility, evaluate, EligibilityResult, IneligibleReason};
use crate::inventory::remove_item_from_inventory;
use crate::keyed::lemma_row_update;
use crate::listing::{arranged, in_order, lemma_arranged, place, pointees};
use crate::reward::{
    apply_outcome, grant_items, lemma_grants_keep_the_rest, resolve, resolved, rewarded,
    with_grants, OutcomeView, RewardOutcome, Sample,
};
use crate::store::{CharacterStore, StoreView};

verus! {

/// What an execution looked for and did not find.
#[derive(Debug, Clone, Copy, PartialEq, Eq, Structural)]
pub enum MissingEntity {
    /// No character has the id.
    Character,
    /// No action has the id, or the action is not active.
    Action,
    /// The action's location is not in the catalog.
    Location,
    /// The town of the action's location is not in the catalog.
    Town,
}

/// Why an execution did not take place.
#[derive(Debug, Clone, Copy, PartialEq, Eq, Structural)]
pub enum ExecutionError {
    /// The character, the action or its place in the world does not exist.
    NotFound(MissingEntity),
    /// The character may not invoke the action now. An expected outcome, for
    /// the caller to show.
    Ineligible(IneligibleReason),
    /// Another execution for the same character was committed first. Raised
    /// by the storage layer, never by [`execute_action`].
    ConcurrencyConflict,
    /// The storage layer could not read or commit. Raised by the storage
    /// layer, never by [`execute_action`].
    StorageFailure,
}

/// The state of a character that an execution reports.
#[derive(Debug, Clone, Copy, PartialEq, Eq)]
pub struct CharacterSummary {
    pub id: Id,
    pub level: i32,
    pub experience: i64,
    pub health: i32,
    pub max_health: i32,
    pub mana: i32,
    pub max_mana: i32,
    pub strength: i32,
    pub dexterity: i32,
    pub intelligence: i32,
    pub constitution: i32,
    pub wisdom: i32,
    pub charisma: i32,
    pub gold: i64,
    pub action_points: i32,
    pub max_action_points: i32,
    pub location_id: Id,
}

/// What an execution did: the rewards as applied, and the character
/// afterwards.
#[derive(Debug, Clone, PartialEq, Eq)]
pub struct ExecutionResult {
    pub outcome: RewardOutcome,
    pub character: CharacterSummary,
}

/// The summary of a character.
pub open spec fn summary_of(character: Character) -> CharacterSummary {
    CharacterSummary {
        id: character.id,
        level: character.level,
        experience: character.experience,
        health: character.health,
        max_health: character.max_health,
        mana: character.mana,
        max_mana: character.max_mana,
        strength: character.strength,
        dexterity: character.dexterity,
        intelligence: character.intelligence,
        constitution: character.constitution,
        wisdom: character.wisdom,
        charisma: character.charisma,
        gold: character.gold,
        action_points: character.action_points,
        max_action_points: character.max_action_points,
        location_id: character.location_id,
    }
}

/// Summarises a character.
pub fn summarize(character: &Character) -> (summary: CharacterSummary)
    ensures
        summary == summary_of(*character),
{
    CharacterSummary {
        id: character.id,
        level: character.level,
        experience: character.experience,
        health: character.health,
        max_health: character.max_health,
        mana: character.mana,
        max_mana: character.max_mana,
        strength: character.strength,
        dexterity: character.dexterity,
        intelligence: character.intelligence,
        constitution: character.constitution,
        wisdom: character.wisdom,
        charisma: character.charisma,
        gold: character.gold,
        action_points: character.action_points,
        max_action_points: character.max_action_points,
        location_id: character.location_id,
    }
}

/// The character and the action of an execution, or what is missing: the
/// character; the action, which must also be active; the action's location;
/// the town of that location.
pub open spec fn loaded(
    catalog: WorldCatalog,
    store: StoreView,
    character_id: Id,
    action_id: Id,
) -> Result<(Character, LocationAction), MissingEntity> {
    match store.character(character_id) {
        None => Err(MissingEntity::Character),
        Some(character) => match catalog.action(action_id) {
            None => Err(MissingEntity::Action),
            Some(action) => if !action.is_active {
                Err(MissingEntity::Action)
            } else {
                match catalog.location(action.location_id) {
                    None => Err(MissingEntity::Location),
                    Some(location) => match catalog.town(location.town_id) {
                        None => Err(MissingEntity::Town),
                        Some(_) => Ok((character, action)),
                    },
                }
            },
        },
    }
}

/// Whether an execution takes place, and on whom and what: the character and
/// the action where both are found and the evaluator consents, and else the
/// reason.
pub open spec fn admitted(
    catalog: WorldCatalog,
    store: StoreView,
    character_id: Id,
    action_id: Id,
    now: Timestamp,
) -> Result<(Character, LocationAction), ExecutionError> {
    match loaded(catalog, store, character_id, action_id) {
        Err(missing) => Err(ExecutionError::NotFound(missing)),
        Ok((character, action)) => match eligibility(catalog, store, character, action, now) {
            EligibilityResult::Ineligible(reason) => Err(ExecutionError::Ineligible(reason)),
            EligibilityResult::Eligible => Ok((character, action)),
        },
    }
}

/// The character after the cost of the action was taken: its currency and
/// its action points.
pub open spec fn charged(character: Character, action: LocationAction) -> Character {
    Character {
        gold: (character.gold - action.required_gold) as i64,
        action_points: (character.action_points - action.action_points_cost) as i32,
        ..character
    }
}

/// The store after the required item of the action was taken from the
/// character.
pub open spec fn consumed(store: StoreView, character_id: Id, action: LocationAction) -> StoreView {
    match action.required_item_id {
        Some(item_id) => store.adjust_item(
            character_id,
            item_id,
            -(action.required_item_quantity as int),
        ),
        None => store,
    }
}

/// The store after the action was executed for the character with the given
/// outcome: the required item taken, the granted items added, the character
/// charged and rewarded, the cooldown started where the action has one, and
/// the completion recorded.
pub open spec fn executed(
    store: StoreView,
    character: Character,
    action: LocationAction,
    outcome: OutcomeView,
    now: Timestamp,
) -> StoreView {
    let taken = consumed(store, character.id, action);
    let granted = with_grants(taken, character.id, outcome.items);
    let settled = granted.put_character(rewarded(charged(character, action), outcome, now));
    let cooled = if action.cooldown_seconds > 0 {
        settled.set_cooldown(character.id, action.id, cooldown_end(now, action.cooldown_seconds))
    } else {
        settled
    };
    cooled.record_completion(character.id, action.id, now)
}

/// What executing the action for the character at `now` with the given draws
/// comes to: the outcome and the store afterwards, or the reason why nothing
/// happens.
pub open spec fn execution(
    catalog: WorldCatalog,
    store: StoreView,
    character_id: Id,
    action_id: Id,
    now: Timestamp,
    samples: Seq<Sample>,
) -> Result<(OutcomeView, StoreView), ExecutionError> {
    match admitted(catalog, store, character_id, action_id, now) {
        Err(error) => Err(error),
        Ok((character, action)) => {
            let outcome = resolved(action.rewards, samples);
            Ok((outcome, executed(store, character, action, outcome, now)))
        },
    }
}

/// Whether the action is on offer at the location to a character of the
/// given level at `now`: it belongs to the location, is active, asks no
/// higher level, and no cooldown blocks it for the character.
pub open spec fn is_available(
    store: StoreView,
    location_id: Id,
    character_id: Id,
    character_level: i32,
    now: Timestamp,
    action: LocationAction,
) -> bool {
    &&& action.location_id == location_id
    &&& action.is_active
    &&& action.required_level <= character_level
    &&& !store.on_cooldown(character_id, action.id, now)
}

/// The actions among `actions` that are on offer, in the same order.
pub open spec fn available_among(
    actions: Seq<LocationAction>,
    store: StoreView,
    location_id: Id,
    character_id: Id,
    character_level: i32,
    now: Timestamp,
) -> Seq<LocationAction>
    decreases actions.len(),
{
    if actions.len() == 0 {
        Seq::empty()
    } else {
        let earlier = available_among(
            actions.drop_last(),
            store,
            location_id,
            character_id,
            character_level,
            now,
        );
        if is_available(store, location_id, character_id, character_level, now, actions.last()) {
            earlier.push(actions.last())
        } else {
            earlier
        }
    }
}

/// Get available actions for a character at a location, respecting level
/// and cooldowns: the active actions of the location whose required level
/// the character has and which no cooldown blocks at `now`. They are listed
/// ascending by sort order and then by name; actions that agree in both keep
/// the order of the catalog. Nothing is changed.
pub fn get_available_actions<'a>(
    catalog: &'a WorldCatalog,
    store: &CharacterStore,
    location_id: Id,
    character_id: Id,
    character_level: i32,
    now: Timestamp,
) -> (actions: Vec<&'a LocationAction>)
    requires
        catalog.wf(),
        store.wf(),
    ensures
        pointees(actions@) == arranged(
            available_among(
                catalog.action_rows(),
                store@,
                location_id,
                character_id,
                character_level,
                now,
            ),
        ),
        in_order(pointees(actions@)),
        pointees(actions@).to_multiset() == available_among(
            catalog.action_rows(),
            store@,
            location_id,
            character_id,
            character_level,
            now,
        ).to_multiset(),
{
    let rows = catalog.action_list();
    let mut actions: Vec<&'a LocationAction> = Vec::new();
    let mut i: usize = 0;
    while i < rows.len()
        invariant
            store.wf(),
            i <= rows@.len(),
            pointees(actions@) == arranged(
                available_among(
                    rows@.take(i as int),
                    store@,
                    location_id,
                    character_id,
                    character_level,
                    now,
                ),
            ),
        decreases rows@.len() - i,
    {
        let action = &rows[i];
        let ghost found = available_among(
            rows@.take(i as int),
            store@,
            location_id,
            character_id,
            character_level,
            now,
        );
        proof {
            assert(rows@.take(i + 1).drop_last() =~= rows@.take(i as int));
            assert(found.push(*action).drop_last() =~= found);
        }
        if action.location_id == location_id && action.is_active && action.required_level
            <= character_level && !is_action_on_cooldown(store, character_id, action.id, now) {
            place(&mut actions, action);
        }
        i = i + 1;
    }
    proof {
        assert(rows@.take(i as int) =~= rows@);
        lemma_arranged(
            available_among(rows@, store@, location_id, character_id, character_level, now),
        );
    }
    actions
}

/// Takes the cost of the action from the character at `place` and applies
/// the outcome to it.
fn settle_character(
    store: &mut CharacterStore,
    place: usize,
    action: &LocationAction,
    outcome: &RewardOutcome,
    now: Timestamp,
) -> (summary: CharacterSummary)
    requires
        old(store).wf(),
        place < old(store).characters@.len(),
        action.valid(),
        old(store).characters@[place as int].gold >= action.required_gold,
        old(store).characters@[place as int].action_points >= action.action_points_cost,
    ensures
        final(store).wf(),
        final(store)@ == old(store)@.put_character(
            rewarded(charged(old(store).characters@[place as int], *action), outcome@, now),
        ),
        summary == summary_of(
            rewarded(charged(old(store).characters@[place as int], *action), outcome@, now),
        ),
{
    let ghost before = store.characters@;
    proof {
        store.lemma_unfold();
    }
    store.characters[place].gold = store.characters[place].gold - action.required_gold;
    store.characters[place].action_points = store.characters[place].action_points
        - action.action_points_cost;
    apply_outcome(&mut store.characters[place], outcome, now);
    let summary = summarize(&store.characters[place]);
    proof {
        let after = store.characters@[place as int];
        assert(store.characters@ =~= before.update(place as int, after));
        lemma_row_update(before, place as int, after);
        assert forall|j: int| 0 <= j < store.characters@.len() implies (
        #[trigger] store.characters@[j]).valid() by {
            if j != place {
                assert(before[j].valid());
            }
        }
        store.lemma_unfold();
    }
    summary
}

/// Executes an action for a character at `now`. `samples` holds the draws
/// from the random source, one for each item reward of the action.
///
/// The execution fails with `NotFound` where the character, the action, the
/// action's location or that location's town is missing or the action is not
/// active, and with `Ineligible` and the evaluator's reason where the
/// character may not invoke the action. A failed execution leaves the store
/// unchanged. Otherwise the cost is taken, the rewards are resolved and
/// applied, the cooldown is started where the action has one, the completion
/// is recorded, and the result holds the outcome and the character as it is
/// afterwards.
pub fn execute_action(
    catalog: &WorldCatalog,
    store: &mut CharacterStore,
    character_id: Id,
    action_id: Id,
    now: Timestamp,
    samples: &Vec<Sample>,
) -> (result: Result<ExecutionResult, ExecutionError>)
    requires
        catalog.wf(),
        old(store).wf(),
        catalog.action(action_id) matches Some(action) ==> action.rewards.items@.len()
            <= samples@.len(),
    ensures
        final(store).wf(),
        match (result, execution(*catalog, old(store)@, character_id, action_id, now, samples@)) {
            (Ok(done), Ok((outcome, after))) => {
                &&& done.outcome@ == outcome
                &&& final(store)@ == after
                &&& done.character == summary_of(after.characters[character_id])
            },
            (Err(error), Err(expected)) => error == expected && *final(store) == *old(store),
            _ => false,
        },
{
    let place = match store.find_character(character_id) {
        Some(place) => place,
        None => {
            return Err(ExecutionError::NotFound(MissingEntity::Character));
        },
    };
    let action = match get_action_by_id(catalog, action_id) {
        Some(action) => action,
        None => {
            return Err(ExecutionError::NotFound(MissingEntity::Action));
        },
    };
    if !action.is_active {
        return Err(ExecutionError::NotFound(MissingEntity::Action));
    }
    let location = match get_location_by_id(catalog, action.location_id) {
        Some(location) => location,
        None => {
            return Err(ExecutionError::NotFound(MissingEntity::Location));
        },
    };
    if get_town_by_id(catalog, location.town_id).is_none() {
        return Err(ExecutionError::NotFound(MissingEntity::Town));
    }
    match evaluate(catalog, store, &store.characters[place], action, now) {
        EligibilityResult::Ineligible(reason) => {
            return Err(ExecutionError::Ineligible(reason));
        },
        EligibilityResult::Eligible => {},
    }
    proof {
        catalog.lemma_actions();
        store.lemma_view_valid();
    }
    match action.required_item_id {
        Some(item_id) => {
            remove_item_from_inventory(store, character_id, item_id, action.required_item_quantity);
        },
        None => {},
    }
    let outcome = resolve(&action.rewards, samples);
    grant_items(store, character_id, &outcome.items);
    proof {
        lemma_grants_keep_the_rest(
            consumed(old(store)@, character_id, *action),
            character_id,
            outcome.items@,
        );
    }
    let place = store.character_place(character_id);
    let summary = settle_character(store, place, action, &outcome, now);
    if action.cooldown_seconds > 0 {
        let _ = set_action_cooldown(store, character_id, action_id, action.cooldown_seconds, now);
    }
    let _ = record_completed_action(store, character_id, action_id, now);
    Ok(ExecutionResult { outcome, character: summary })
}

} // verus!
