//! The eligibility evaluator: whether a character may invoke an action now.
//!
//! The evaluator reads the catalog and the store and changes nothing. Its
//! checks run in a fixed order and the first one that fails gives the reason.

use vstd::prelude::*;
use crate::catalog::{get_location_by_id, LocationAction, Timestamp, WorldCatalog};
use crate::character::Character;
use crate::completion::times_completed;
use crate::cooldown::is_action_on_cooldown;
use crate::inventory::held_quantity;
use crate::store::{CharacterStore, StoreView};

verus! {

/// Why a character may not invoke an action.
#[derive(Debug, Clone, Copy, PartialEq, Eq, Structural)]
pub enum IneligibleReason {
    /// The character's level is below the action's required level.
    InsufficientLevel,
    /// The character has less currency than the action costs.
    InsufficientCurrency,
    /// The character has fewer action points than the action costs.
    InsufficientActionPoints,
    /// The character holds fewer of the required item unequipped than the
    /// action asks.
    MissingRequiredItem,
    /// A cooldown of the action has not ended for the character.
    OnCooldown,
    /// The action is not repeatable and the character has completed it.
    AlreadyCompleted,
    /// The action or its location is not active.
    LocationInactive,
}

/// The verdict of the evaluator.
#[derive(Debug, Clone, Copy, PartialEq, Eq, Structural)]
pub enum EligibilityResult {
    Eligible,
    Ineligible(IneligibleReason),
}

/// Whether the action's location is in the catalog and active.
pub open spec fn location_active(catalog: WorldCatalog, action: LocationAction) -> bool {
    match catalog.location(action.location_id) {
        Some(location) => location.is_active,
        None => false,
    }
}

/// Whether the character has what the action requires: the level, the
/// currency, the action points and the item. Equipped items do not count.
pub open spec fn meets_requirements(
    store: StoreView,
    character: Character,
    action: LocationAction,
) -> bool {
    &&& character.level >= action.required_level
    &&& character.gold >= action.required_gold
    &&& character.action_points >= action.action_points_cost
    &&& action.required_item_id matches Some(item_id) ==> store.held(character.id, item_id)
        >= action.required_item_quantity
}

/// The verdict on a character and an action at `now`.
pub open spec fn eligibility(
    catalog: WorldCatalog,
    store: StoreView,
    character: Character,
    action: LocationAction,
    now: Timestamp,
) -> EligibilityResult {
    if !action.is_active || !location_active(catalog, action) {
        EligibilityResult::Ineligible(IneligibleReason::LocationInactive)
    } else if character.level < action.required_level {
        EligibilityResult::Ineligible(IneligibleReason::InsufficientLevel)
    } else if character.gold < action.required_gold {
        EligibilityResult::Ineligible(IneligibleReason::InsufficientCurrency)
    } else if character.action_points < action.action_points_cost {
        EligibilityResult::Ineligible(IneligibleReason::InsufficientActionPoints)
    } else if !meets_requirements(store, character, action) {
        EligibilityResult::Ineligible(IneligibleReason::MissingRequiredItem)
    } else if store.on_cooldown(character.id, action.id, now) {
        EligibilityResult::Ineligible(IneligibleReason::OnCooldown)
    } else if !action.is_repeatable && store.times_completed(character.id, action.id) > 0 {
        EligibilityResult::Ineligible(IneligibleReason::AlreadyCompleted)
    } else {
        EligibilityResult::Eligible
    }
}

/// Decides whether the character may invoke the action at `now`. The checks
/// run in this order, and the first that fails gives the reason: the action
/// and its location are active; the level; the currency; the action points;
/// the required item; the cooldown; for an action that is not repeatable,
/// that the character has not completed it.
pub fn evaluate(
    catalog: &WorldCatalog,
    store: &CharacterStore,
    character: &Character,
    action: &LocationAction,
    now: Timestamp,
) -> (verdict: EligibilityResult)
    requires
        catalog.wf(),
        store.wf(),
    ensures
        verdict == eligibility(*catalog, store@, *character, *action, now),
{
    if !action.is_active {
        return EligibilityResult::Ineligible(IneligibleReason::LocationInactive);
    }
    match get_location_by_id(catalog, action.location_id) {
        Some(location) => {
            if !location.is_active {
                return EligibilityResult::Ineligible(IneligibleReason::LocationInactive);
            }
        },
        None => {
            return EligibilityResult::Ineligible(IneligibleReason::LocationInactive);
        },
    }
    if character.level < action.required_level {
        return EligibilityResult::Ineligible(IneligibleReason::InsufficientLevel);
    }
    if character.gold < action.required_gold {
        return EligibilityResult::Ineligible(IneligibleReason::InsufficientCurrency);
    }
    if character.action_points < action.action_points_cost {
        return EligibilityResult::Ineligible(IneligibleReason::InsufficientActionPoints);
    }
    match action.required_item_id {
        Some(item_id) => {
            if held_quantity(store, character.id, item_id) < action.required_item_quantity {
                return EligibilityResult::Ineligible(IneligibleReason::MissingRequiredItem);
            }
        },
        None => {},
    }
    if is_action_on_cooldown(store, character.id, action.id, now) {
        return EligibilityResult::Ineligible(IneligibleReason::OnCooldown);
    }
    if !action.is_repeatable && times_completed(store, character.id, action.id) > 0 {
        return EligibilityResult::Ineligible(IneligibleReason::AlreadyCompleted);
    }
    EligibilityResult::Eligible
}

} // verus!
