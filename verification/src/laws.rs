//! What holds of the engine whatever the world and the characters are.

use vstd::prelude::*;
use crate::catalog::{
    ActionRewards, Id, ItemReward, LocationAction, StatChanges, Timestamp, WorldCatalog,
    CHANCE_ALWAYS, CHANCE_NEVER,
};
use crate::character::{Character, InventoryItem};
use crate::cooldown::cooldown_end;
use crate::eligibility::{eligibility, meets_requirements, IneligibleReason};
use crate::engine::{admitted, charged, consumed, executed, execution, ExecutionError};
use crate::keyed::Keyed;
use crate::reward::{
    granted_items, is_sample, item_drops, lemma_grants_keep_the_rest, resolved, rewarded,
    rewarded_experience, rewarded_gold, with_grants, with_stat_changes, ItemGrant, OutcomeView,
    Sample,
};
use crate::store::{loose_line, LineKey, StoreView};

verus! {

/// Changing a loose line keeps a valid store valid.
pub proof fn lemma_adjust_item_valid(store: StoreView, character_id: Id, item_id: Id, delta: int)
    requires
        store.valid(),
    ensures
        store.adjust_item(character_id, item_id, delta).valid(),
{
    let after = store.adjust_item(character_id, item_id, delta);
    assert forall|k: LineKey| #[trigger] after.inventory.dom().contains(k) implies
        after.inventory[k].key() == k && after.inventory[k].valid() by {
        if k != loose_line(character_id, item_id) {
            assert(store.inventory.dom().contains(k));
        }
    }
}

/// In a valid store the unequipped line of an item is its loose line: a
/// character has no other line of the item that is not equipped.
pub proof fn law_one_unequipped_line(store: StoreView, key: LineKey)
    requires
        store.valid(),
        store.inventory.dom().contains(key),
        !store.inventory[key].equipped,
    ensures
        key == loose_line(store.inventory[key].character_id, store.inventory[key].item_id),
        store.held(store.inventory[key].character_id, store.inventory[key].item_id)
            == store.inventory[key].quantity,
{
    assert(store.inventory[key].key() == key);
}

/// Removing takes from the unequipped line: where a character holds `k` of
/// an item on a line that is not equipped, removing a quantity from one to
/// below `k` leaves the rest on that line, adds and deletes no line, and
/// changes no other line and nothing else in the store.
pub proof fn law_removal_takes_from_the_unequipped_line(
    store: StoreView,
    key: LineKey,
    quantity: int,
)
    requires
        store.valid(),
        store.inventory.dom().contains(key),
        !store.inventory[key].equipped,
        1 <= quantity < store.inventory[key].quantity,
    ensures
        ({
            let line = store.inventory[key];
            let after = store.adjust_item(line.character_id, line.item_id, -quantity);
            &&& after.inventory.dom() == store.inventory.dom()
            &&& after.inventory[key] == (InventoryItem {
                quantity: (line.quantity - quantity) as i32,
                ..line
            })
            &&& after.same_but_line(store, key)
            &&& after.valid()
        }),
{
    let line = store.inventory[key];
    law_one_unequipped_line(store, key);
    lemma_adjust_item_valid(store, line.character_id, line.item_id, -quantity);
    let after = store.adjust_item(line.character_id, line.item_id, -quantity);
    assert(after.inventory.dom() =~= store.inventory.dom());
}

/// Granting items keeps a valid store valid.
pub proof fn lemma_grants_valid(store: StoreView, character_id: Id, grants: Seq<ItemGrant>)
    requires
        store.valid(),
    ensures
        with_grants(store, character_id, grants).valid(),
    decreases grants.len(),
{
    if grants.len() > 0 {
        lemma_grants_valid(store, character_id, grants.drop_last());
        lemma_adjust_item_valid(
            with_grants(store, character_id, grants.drop_last()),
            character_id,
            grants.last().item_id,
            grants.last().quantity as int,
        );
    }
}

/// An execution keeps the invariants: after it every character is valid,
/// so that health, mana and action points are not above their maxima, no
/// currency balance is negative and no level is below one, and every
/// inventory line holds at least one item.
pub proof fn law_execution_keeps_invariants(
    catalog: WorldCatalog,
    store: StoreView,
    character_id: Id,
    action_id: Id,
    now: Timestamp,
    samples: Seq<Sample>,
)
    requires
        catalog.wf(),
        store.valid(),
        execution(catalog, store, character_id, action_id, now, samples) is Ok,
    ensures
        execution(catalog, store, character_id, action_id, now, samples)->Ok_0.1.valid(),
{
    catalog.lemma_actions();
    let (character, action) = admitted(catalog, store, character_id, action_id, now)->Ok_0;
    let outcome = resolved(action.rewards, samples);
    let taken = consumed(store, character_id, action);
    if action.required_item_id is Some {
        lemma_adjust_item_valid(
            store,
            character_id,
            action.required_item_id->Some_0,
            -(action.required_item_quantity as int),
        );
    }
    lemma_grants_valid(taken, character_id, outcome.items);
    lemma_grants_keep_the_rest(taken, character_id, outcome.items);
    let granted = with_grants(taken, character_id, outcome.items);
    let after = rewarded(charged(character, action), outcome, now);
    assert(after.valid());
    let settled = granted.put_character(after);
    assert forall|id: Id| #[trigger] settled.characters.dom().contains(id) implies
        settled.characters[id].id == id && settled.characters[id].valid() by {
        if id != character_id {
            assert(store.characters.dom().contains(id));
        }
    }
}

/// No double execution: once an action with a cooldown has been executed for
/// a character, an execution of the same action for the same character
/// before the cooldown ends never succeeds. It fails with `OnCooldown`
/// where the character still has what the action requires, and else with
/// the reason of the requirement that the character no longer meets.
pub proof fn law_no_second_success_during_cooldown(
    catalog: WorldCatalog,
    store: StoreView,
    character_id: Id,
    action_id: Id,
    first: Timestamp,
    second: Timestamp,
    first_samples: Seq<Sample>,
    second_samples: Seq<Sample>,
)
    requires
        catalog.wf(),
        store.valid(),
        execution(catalog, store, character_id, action_id, first, first_samples) is Ok,
        catalog.action(action_id)->Some_0.cooldown_seconds > 0,
        second < cooldown_end(first, catalog.action(action_id)->Some_0.cooldown_seconds),
    ensures
        ({
            let after = execution(
                catalog,
                store,
                character_id,
                action_id,
                first,
                first_samples,
            )->Ok_0.1;
            let again = execution(catalog, after, character_id, action_id, second, second_samples);
            &&& again matches Err(ExecutionError::Ineligible(_))
            &&& meets_requirements(
                after,
                after.characters[character_id],
                catalog.action(action_id)->Some_0,
            ) ==> again == Err::<(OutcomeView, StoreView), ExecutionError>(
                ExecutionError::Ineligible(IneligibleReason::OnCooldown),
            )
        }),
{
    catalog.lemma_actions();
    let (character, action) = admitted(catalog, store, character_id, action_id, first)->Ok_0;
    let outcome = resolved(action.rewards, first_samples);
    let taken = consumed(store, character_id, action);
    lemma_grants_keep_the_rest(taken, character_id, outcome.items);
    let after = executed(store, character, action, outcome, first);
    assert(after.characters.dom().contains(character_id));
    assert(after.cooldowns.dom().contains((character_id, action_id)));
    assert(after.on_cooldown(character_id, action_id, second));
}

/// Cooldown reset: once a repeatable action has been executed for a
/// character, an execution at or after the end of its cooldown succeeds,
/// provided the character still has what the action requires.
pub proof fn law_success_after_cooldown(
    catalog: WorldCatalog,
    store: StoreView,
    character_id: Id,
    action_id: Id,
    first: Timestamp,
    second: Timestamp,
    first_samples: Seq<Sample>,
    second_samples: Seq<Sample>,
)
    requires
        catalog.wf(),
        store.valid(),
        execution(catalog, store, character_id, action_id, first, first_samples) is Ok,
        catalog.action(action_id)->Some_0.is_repeatable,
        first <= second,
        cooldown_end(first, catalog.action(action_id)->Some_0.cooldown_seconds) <= second,
        ({
            let after = execution(
                catalog,
                store,
                character_id,
                action_id,
                first,
                first_samples,
            )->Ok_0.1;
            meets_requirements(
                after,
                after.characters[character_id],
                catalog.action(action_id)->Some_0,
            )
        }),
    ensures
        ({
            let after = execution(
                catalog,
                store,
                character_id,
                action_id,
                first,
                first_samples,
            )->Ok_0.1;
            execution(catalog, after, character_id, action_id, second, second_samples) is Ok
        }),
{
    catalog.lemma_actions();
    let (character, action) = admitted(catalog, store, character_id, action_id, first)->Ok_0;
    let outcome = resolved(action.rewards, first_samples);
    let taken = consumed(store, character_id, action);
    lemma_grants_keep_the_rest(taken, character_id, outcome.items);
    let after = executed(store, character, action, outcome, first);
    assert(after.characters.dom().contains(character_id));
    assert(!store.on_cooldown(character_id, action_id, first));
    assert(!after.on_cooldown(character_id, action_id, second));
}

/// What an execution takes and gives: afterwards the character has paid
/// the currency and the action points that the action costs, has received
/// the currency and the experience that it rewards, and has kept its level
/// and its maxima.
pub proof fn law_execution_settles_balances(
    catalog: WorldCatalog,
    store: StoreView,
    character_id: Id,
    action_id: Id,
    now: Timestamp,
    samples: Seq<Sample>,
)
    requires
        catalog.wf(),
        store.valid(),
        execution(catalog, store, character_id, action_id, now, samples) is Ok,
    ensures
        ({
            let before = store.characters[character_id];
            let action = catalog.action(action_id)->Some_0;
            let after = execution(
                catalog,
                store,
                character_id,
                action_id,
                now,
                samples,
            )->Ok_0.1.characters[character_id];
            &&& after.gold == rewarded_gold(
                (before.gold - action.required_gold) as i64,
                action.rewards.gold,
            )
            &&& after.action_points == before.action_points - action.action_points_cost
            &&& after.experience == rewarded_experience(
                before.experience,
                action.rewards.experience,
            )
            &&& 0 <= before.gold - action.required_gold <= before.gold
            &&& 0 <= after.action_points <= before.action_points
            &&& after.level == before.level
            &&& after.max_health == before.max_health
            &&& after.max_mana == before.max_mana
            &&& after.max_action_points == before.max_action_points
            &&& after.id == before.id
            &&& after.name == before.name
        }),
{
    catalog.lemma_actions();
    let (character, action) = admitted(catalog, store, character_id, action_id, now)->Ok_0;
    let outcome = resolved(action.rewards, samples);
    let taken = consumed(store, character_id, action);
    lemma_grants_keep_the_rest(taken, character_id, outcome.items);
}

/// A cooldown is replaced, never extended: after an execution of an action
/// with a cooldown, the cooldown ends that many seconds after the execution,
/// whatever cooldown the character had for the action before.
pub proof fn law_cooldown_is_reset(
    catalog: WorldCatalog,
    store: StoreView,
    character_id: Id,
    action_id: Id,
    now: Timestamp,
    samples: Seq<Sample>,
)
    requires
        catalog.wf(),
        store.valid(),
        execution(catalog, store, character_id, action_id, now, samples) is Ok,
    ensures
        ({
            let after = execution(catalog, store, character_id, action_id, now, samples)->Ok_0.1;
            let action = catalog.action(action_id)->Some_0;
            after.cooldown_until(character_id, action_id) == if action.cooldown_seconds > 0 {
                Some(cooldown_end(now, action.cooldown_seconds))
            } else {
                store.cooldown_until(character_id, action_id)
            }
        }),
{
    catalog.lemma_actions();
    let (character, action) = admitted(catalog, store, character_id, action_id, now)->Ok_0;
    let outcome = resolved(action.rewards, samples);
    let taken = consumed(store, character_id, action);
    lemma_grants_keep_the_rest(taken, character_id, outcome.items);
}

/// Setting a cooldown replaces it: whenever the cooldown that the character
/// had for the action ended, or if it had none, the cooldown afterwards ends
/// `seconds` after `now`, where that is a point in time. The character has
/// one cooldown for the action, and no other cooldown is added, taken away
/// or changed.
pub proof fn law_cooldown_is_replaced(
    store: StoreView,
    character_id: Id,
    action_id: Id,
    now: Timestamp,
    seconds: i32,
)
    requires
        i64::MIN <= now + seconds <= i64::MAX,
    ensures
        ({
            let key = (character_id, action_id);
            let after = store.set_cooldown(character_id, action_id, cooldown_end(now, seconds));
            &&& after.cooldown_until(character_id, action_id) == Some((now + seconds) as i64)
            &&& after.cooldowns.dom() == store.cooldowns.dom().insert(key)
            &&& forall|other: (Id, Id)|
                other != key ==> (#[trigger] after.cooldowns.dom().contains(other))
                    == store.cooldowns.dom().contains(other)
            &&& forall|other: (Id, Id)|
                other != key && #[trigger] after.cooldowns.dom().contains(other)
                    ==> after.cooldowns[other] == store.cooldowns[other]
            &&& after.characters == store.characters
            &&& after.completed == store.completed
            &&& after.inventory == store.inventory
        }),
{
}

/// Sweeping is housekeeping: from the time of the sweep on, a swept store
/// blocks the same actions as the store before the sweep, so that every
/// verdict of the evaluator is the same.
pub proof fn law_sweep_keeps_verdicts(
    catalog: WorldCatalog,
    store: StoreView,
    swept_at: Timestamp,
    character: Character,
    action: LocationAction,
    now: Timestamp,
)
    requires
        swept_at <= now,
    ensures
        store.sweep(swept_at).on_cooldown(character.id, action.id, now) == store.on_cooldown(
            character.id,
            action.id,
            now,
        ),
        eligibility(catalog, store.sweep(swept_at), character, action, now) == eligibility(
            catalog,
            store,
            character,
            action,
            now,
        ),
{
}

/// With one item reward, the outcome holds that item if and only if the
/// first draw lies below its chance, and every other part of the outcome is
/// the part of the rewards.
pub proof fn law_single_item_reward(rewards: ActionRewards, samples: Seq<Sample>)
    requires
        rewards.items@.len() == 1,
    ensures
        resolved(rewards, samples).items == if samples[0] < rewards.items@[0].chance {
            seq![
                ItemGrant { item_id: rewards.items@[0].item_id, quantity: rewards.items@[0].quantity },
            ]
        } else {
            Seq::<ItemGrant>::empty()
        },
        resolved(rewards, samples).gold == rewards.gold,
        resolved(rewards, samples).experience == rewards.experience,
        resolved(rewards, samples).stat_changes == rewards.stat_changes,
        resolved(rewards, samples).unlocks == rewards.unlocks@,
        resolved(rewards, samples).teleport_to == rewards.teleport_to,
{
    let items = rewards.items@;
    assert(items.drop_last().len() == 0);
    assert(granted_items(items.drop_last(), samples) =~= Seq::<ItemGrant>::empty());
    assert(granted_items(items, samples) =~= if samples[0] < items[0].chance {
        seq![ItemGrant { item_id: items[0].item_id, quantity: items[0].quantity }]
    } else {
        Seq::<ItemGrant>::empty()
    });
}

/// A chance of one is certain and a chance of zero is hopeless: an item
/// with the first drops on every draw, an item with the second on none.
pub proof fn law_certain_and_hopeless_chances(sample: Sample)
    ensures
        is_sample(sample) ==> item_drops(CHANCE_ALWAYS, sample),
        !item_drops(CHANCE_NEVER, sample),
{
}

/// Whether the grant is that of one of the rewards whose draw lay below
/// its chance.
pub open spec fn comes_from_reward(
    grant: ItemGrant,
    rewards: Seq<ItemReward>,
    samples: Seq<Sample>,
) -> bool {
    exists|r: int|
        0 <= r < rewards.len() && item_drops((#[trigger] rewards[r]).chance, samples[r]) && grant
            == (ItemGrant { item_id: rewards[r].item_id, quantity: rewards[r].quantity })
}

/// Every item in an outcome comes from an item reward whose draw lay below
/// its chance, and there are no more items than rewards.
pub proof fn law_granted_items_come_from_rewards(rewards: Seq<ItemReward>, samples: Seq<Sample>)
    ensures
        granted_items(rewards, samples).len() <= rewards.len(),
        forall|g: int|
            0 <= g < granted_items(rewards, samples).len() ==> comes_from_reward(
                #[trigger] granted_items(rewards, samples)[g],
                rewards,
                samples,
            ),
    decreases rewards.len(),
{
    if rewards.len() > 0 {
        let init = rewards.drop_last();
        law_granted_items_come_from_rewards(init, samples);
        let all = granted_items(rewards, samples);
        let earlier = granted_items(init, samples);
        assert forall|g: int| 0 <= g < all.len() implies comes_from_reward(
            #[trigger] all[g],
            rewards,
            samples,
        ) by {
            if g < earlier.len() {
                assert(comes_from_reward(earlier[g], init, samples));
                let r = choose|r: int|
                    0 <= r < init.len() && item_drops((#[trigger] init[r]).chance, samples[r])
                        && earlier[g] == (ItemGrant {
                        item_id: init[r].item_id,
                        quantity: init[r].quantity,
                    });
                assert(rewards[r] == init[r]);
            } else {
                let r = rewards.len() - 1;
                assert(item_drops(rewards[r].chance, samples[r]));
            }
        }
    }
}

/// Healing stops at the maximum: a change that would lift health above the
/// maximum leaves it at the maximum, and no change lifts the health or the
/// mana of a valid character above its maximum.
pub proof fn law_health_stops_at_max(character: Character, changes: StatChanges)
    requires
        character.valid(),
    ensures
        with_stat_changes(character, changes).health <= character.max_health,
        with_stat_changes(character, changes).mana <= character.max_mana,
        with_stat_changes(character, changes).max_health == character.max_health,
        changes.health matches Some(delta) && character.health + delta >= character.max_health
            ==> with_stat_changes(character, changes).health == character.max_health,
        changes.mana matches Some(delta) && character.mana + delta >= character.max_mana
            ==> with_stat_changes(character, changes).mana == character.max_mana,
{
}

/// A teleport moves the character: after an execution whose action names a
/// teleport target, the character is at the target, wherever it was.
pub proof fn law_teleport_moves_character(
    catalog: WorldCatalog,
    store: StoreView,
    character_id: Id,
    action_id: Id,
    now: Timestamp,
    samples: Seq<Sample>,
)
    requires
        catalog.wf(),
        store.valid(),
        execution(catalog, store, character_id, action_id, now, samples) is Ok,
        catalog.action(action_id)->Some_0.rewards.teleport_to is Some,
    ensures
        ({
            let after = execution(catalog, store, character_id, action_id, now, samples)->Ok_0.1;
            &&& after.characters.dom().contains(character_id)
            &&& after.characters[character_id].location_id == catalog.action(
                action_id,
            )->Some_0.rewards.teleport_to->Some_0
        }),
{
    let (character, action) = admitted(catalog, store, character_id, action_id, now)->Ok_0;
    let outcome = resolved(action.rewards, samples);
    let taken = consumed(store, character_id, action);
    lemma_grants_keep_the_rest(taken, character_id, outcome.items);
}

} // verus!
