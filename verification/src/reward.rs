//! The reward resolver: what an action's rewards come to once the random
//! draws are made, and what that does to a character.

use vstd::prelude::*;
use crate::arith::{clamp, saturating_sum_i32, saturating_sum_i64};
use crate::catalog::{
    ActionRewards, Id, ItemReward, Probability, StatChanges, Timestamp, UnlockReward,
    CHANCE_ALWAYS,
};
use crate::character::Character;
use crate::inventory::adjust_item_quantity;
use crate::store::{CharacterStore, StoreView};

verus! {

/// A draw from the random source: a number in `[0, 1)`, held as a
/// probability is.
pub type Sample = u32;

/// Whether the number is a draw: it lies below one.
pub open spec fn is_sample(sample: Sample) -> bool {
    sample < CHANCE_ALWAYS
}

/// A quantity of an item that an action granted.
#[derive(Debug, Clone, Copy, PartialEq, Eq)]
pub struct ItemGrant {
    pub item_id: Id,
    pub quantity: i32,
}

/// What an action's rewards came to: the changes to make to the character.
#[derive(Debug, Clone, PartialEq, Eq)]
pub struct RewardOutcome {
    /// Currency to add.
    pub gold: Option<i64>,
    /// Experience to add.
    pub experience: Option<i64>,
    /// The items that dropped, in the order of the rewards.
    pub items: Vec<ItemGrant>,
    /// Changes to the attributes, not yet held to the maxima.
    pub stat_changes: Option<StatChanges>,
    /// The unlocks, for the caller to grant.
    pub unlocks: Vec<UnlockReward>,
    /// The location to move the character to.
    pub teleport_to: Option<Id>,
}

/// A reward outcome as a value of specifications.
pub struct OutcomeView {
    pub gold: Option<i64>,
    pub experience: Option<i64>,
    pub items: Seq<ItemGrant>,
    pub stat_changes: Option<StatChanges>,
    pub unlocks: Seq<UnlockReward>,
    pub teleport_to: Option<Id>,
}

impl View for RewardOutcome {
    type V = OutcomeView;

    open spec fn view(&self) -> OutcomeView {
        OutcomeView {
            gold: self.gold,
            experience: self.experience,
            items: self.items@,
            stat_changes: self.stat_changes,
            unlocks: self.unlocks@,
            teleport_to: self.teleport_to,
        }
    }
}

/// Whether an item drops on a draw: the draw lies below the chance.
pub open spec fn item_drops(chance: Probability, sample: Sample) -> bool {
    sample < chance
}

/// The items that drop: each reward whose draw lies below its chance, in the
/// order of the rewards. The draw for a reward is the sample at its place.
pub open spec fn granted_items(rewards: Seq<ItemReward>, samples: Seq<Sample>) -> Seq<ItemGrant>
    decreases rewards.len(),
{
    if rewards.len() == 0 {
        Seq::empty()
    } else {
        let earlier = granted_items(rewards.drop_last(), samples);
        let reward = rewards.last();
        if item_drops(reward.chance, samples[rewards.len() - 1]) {
            earlier.push(ItemGrant { item_id: reward.item_id, quantity: reward.quantity })
        } else {
            earlier
        }
    }
}

/// What the rewards come to on the given draws: the items that drop, and
/// every other part as it stands in the rewards.
pub open spec fn resolved(rewards: ActionRewards, samples: Seq<Sample>) -> OutcomeView {
    OutcomeView {
        gold: rewards.gold,
        experience: rewards.experience,
        items: granted_items(rewards.items@, samples),
        stat_changes: rewards.stat_changes,
        unlocks: rewards.unlocks@,
        teleport_to: rewards.teleport_to,
    }
}

/// Resolves the rewards of an action on the given draws, one for each item
/// reward and in the same order. An item is part of the outcome if and only
/// if its draw lies below its chance; currency, experience, attribute
/// changes, unlocks and the teleport target pass through unchanged.
pub fn resolve(rewards: &ActionRewards, samples: &Vec<Sample>) -> (outcome: RewardOutcome)
    requires
        rewards.items@.len() <= samples@.len(),
    ensures
        outcome@ == resolved(*rewards, samples@),
{
    let mut items: Vec<ItemGrant> = Vec::new();
    let mut i: usize = 0;
    while i < rewards.items.len()
        invariant
            i <= rewards.items@.len(),
            rewards.items@.len() <= samples@.len(),
            items@ == granted_items(rewards.items@.take(i as int), samples@),
        decreases rewards.items@.len() - i,
    {
        let reward = rewards.items[i];
        proof {
            assert(rewards.items@.take(i + 1).drop_last() =~= rewards.items@.take(i as int));
        }
        if samples[i] < reward.chance {
            items.push(ItemGrant { item_id: reward.item_id, quantity: reward.quantity });
        }
        i = i + 1;
    }
    assert(rewards.items@.take(i as int) =~= rewards.items@);
    let mut unlocks: Vec<UnlockReward> = Vec::new();
    let mut j: usize = 0;
    while j < rewards.unlocks.len()
        invariant
            j <= rewards.unlocks@.len(),
            unlocks@ == rewards.unlocks@.take(j as int),
        decreases rewards.unlocks@.len() - j,
    {
        unlocks.push(
            UnlockReward {
                unlock_type: rewards.unlocks[j].unlock_type.clone(),
                target_id: rewards.unlocks[j].target_id,
            },
        );
        j = j + 1;
    }
    assert(rewards.unlocks@.take(j as int) =~= rewards.unlocks@);
    RewardOutcome {
        gold: rewards.gold,
        experience: rewards.experience,
        items,
        stat_changes: rewards.stat_changes,
        unlocks,
        teleport_to: rewards.teleport_to,
    }
}

/// An attribute after a change: the sum, stopping at the ends of the range
/// of the attribute.
pub open spec fn changed_stat(current: i32, change: Option<i32>) -> i32 {
    match change {
        Some(delta) => clamp(current + delta, i32::MIN as int, i32::MAX as int) as i32,
        None => current,
    }
}

/// A resource after a change: the sum, but no more than the maximum of the
/// resource.
pub open spec fn changed_resource(current: i32, change: Option<i32>, max: i32) -> i32 {
    match change {
        Some(delta) => clamp(current + delta, i32::MIN as int, max as int) as i32,
        None => current,
    }
}

/// The currency balance after a reward: the sum, but not below zero.
pub open spec fn rewarded_gold(balance: i64, reward: Option<i64>) -> i64 {
    match reward {
        Some(amount) => clamp(balance + amount, 0, i64::MAX as int) as i64,
        None => balance,
    }
}

/// The experience after a reward.
pub open spec fn rewarded_experience(experience: i64, reward: Option<i64>) -> i64 {
    match reward {
        Some(amount) => clamp(experience + amount, i64::MIN as int, i64::MAX as int) as i64,
        None => experience,
    }
}

/// The character after the attribute changes: health and mana are held to
/// their maxima.
pub open spec fn with_stat_changes(character: Character, changes: StatChanges) -> Character {
    Character {
        health: changed_resource(character.health, changes.health, character.max_health),
        mana: changed_resource(character.mana, changes.mana, character.max_mana),
        strength: changed_stat(character.strength, changes.strength),
        dexterity: changed_stat(character.dexterity, changes.dexterity),
        intelligence: changed_stat(character.intelligence, changes.intelligence),
        constitution: changed_stat(character.constitution, changes.constitution),
        wisdom: changed_stat(character.wisdom, changes.wisdom),
        charisma: changed_stat(character.charisma, changes.charisma),
        ..character
    }
}

/// The character after an outcome has been applied at `now`: currency and
/// experience added, attributes changed, and the character moved where the
/// outcome teleports. Items go to the inventory, see [`with_grants`].
pub open spec fn rewarded(character: Character, outcome: OutcomeView, now: Timestamp) -> Character {
    let changed = match outcome.stat_changes {
        Some(changes) => with_stat_changes(character, changes),
        None => character,
    };
    Character {
        gold: rewarded_gold(character.gold, outcome.gold),
        experience: rewarded_experience(character.experience, outcome.experience),
        location_id: match outcome.teleport_to {
            Some(location_id) => location_id,
            None => character.location_id,
        },
        updated_at: now,
        ..changed
    }
}

/// The store after the character was granted the items, one after the other.
pub open spec fn with_grants(
    store: StoreView,
    character_id: Id,
    grants: Seq<ItemGrant>,
) -> StoreView
    decreases grants.len(),
{
    if grants.len() == 0 {
        store
    } else {
        with_grants(store, character_id, grants.drop_last()).adjust_item(
            character_id,
            grants.last().item_id,
            grants.last().quantity as int,
        )
    }
}

/// Granting items changes the inventory and nothing else.
pub proof fn lemma_grants_keep_the_rest(store: StoreView, character_id: Id, grants: Seq<ItemGrant>)
    ensures
        with_grants(store, character_id, grants).characters == store.characters,
        with_grants(store, character_id, grants).cooldowns == store.cooldowns,
        with_grants(store, character_id, grants).completed == store.completed,
    decreases grants.len(),
{
    if grants.len() > 0 {
        lemma_grants_keep_the_rest(store, character_id, grants.drop_last());
    }
}

fn apply_resource_change(current: i32, change: Option<i32>, max: i32) -> (after: i32)
    ensures
        after == changed_resource(current, change, max),
{
    match change {
        Some(delta) => {
            let sum = saturating_sum_i32(current, delta);
            if sum > max {
                max
            } else {
                sum
            }
        },
        None => current,
    }
}

fn apply_stat_change(current: i32, change: Option<i32>) -> (after: i32)
    ensures
        after == changed_stat(current, change),
{
    match change {
        Some(delta) => saturating_sum_i32(current, delta),
        None => current,
    }
}

/// Applies an outcome to a character at `now`, all but the items. A valid
/// character stays valid: health and mana do not pass their maxima, and the
/// currency balance does not fall below zero.
pub fn apply_outcome(character: &mut Character, outcome: &RewardOutcome, now: Timestamp)
    ensures
        *final(character) == rewarded(*old(character), outcome@, now),
        old(character).valid() ==> final(character).valid(),
{
    match outcome.stat_changes {
        Some(changes) => {
            character.health = apply_resource_change(
                character.health,
                changes.health,
                character.max_health,
            );
            character.mana = apply_resource_change(
                character.mana,
                changes.mana,
                character.max_mana,
            );
            character.strength = apply_stat_change(character.strength, changes.strength);
            character.dexterity = apply_stat_change(character.dexterity, changes.dexterity);
            character.intelligence = apply_stat_change(
                character.intelligence,
                changes.intelligence,
            );
            character.constitution = apply_stat_change(
                character.constitution,
                changes.constitution,
            );
            character.wisdom = apply_stat_change(character.wisdom, changes.wisdom);
            character.charisma = apply_stat_change(character.charisma, changes.charisma);
        },
        None => {},
    }
    match outcome.gold {
        Some(amount) => {
            let sum = saturating_sum_i64(character.gold, amount);
            character.gold = if sum < 0 {
                0
            } else {
                sum
            };
        },
        None => {},
    }
    match outcome.experience {
        Some(amount) => {
            character.experience = saturating_sum_i64(character.experience, amount);
        },
        None => {},
    }
    match outcome.teleport_to {
        Some(location_id) => {
            character.location_id = location_id;
        },
        None => {},
    }
    character.updated_at = now;
}

/// Puts the granted items into the character's inventory, one after the
/// other.
pub fn grant_items(store: &mut CharacterStore, character_id: Id, grants: &Vec<ItemGrant>)
    requires
        old(store).wf(),
    ensures
        final(store).wf(),
        final(store)@ == with_grants(old(store)@, character_id, grants@),
{
    let mut i: usize = 0;
    while i < grants.len()
        invariant
            i <= grants@.len(),
            store.wf(),
            store@ == with_grants(old(store)@, character_id, grants@.take(i as int)),
        decreases grants@.len() - i,
    {
        proof {
            assert(grants@.take(i + 1).drop_last() =~= grants@.take(i as int));
        }
        let _ = adjust_item_quantity(
            store,
            character_id,
            grants[i].item_id,
            grants[i].quantity as i64,
        );
        i = i + 1;
    }
    assert(grants@.take(i as int) =~= grants@);
}

} // verus!
