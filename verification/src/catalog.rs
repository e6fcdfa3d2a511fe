//! The world catalog: towns, the locations inside them, and the actions that
//! a location offers, with each action's requirements and rewards.
//!
//! The catalog is reference data. It is built once from rows whose ids are
//! unique and is only read afterwards.

use vstd::prelude::*;
use crate::keyed::{
    all_keys_distinct, lemma_row_absent, lemma_row_lookup, rows_distinct, rows_to_map, Keyed,
};
use crate::text::same_text;
use crate::listing::{
    arranged, in_order, lemma_arranged, place, pointees, text_not_after, Listed, SortKey,
};

verus! {

/// Identifier of a row: the 128-bit value of its UUID.
pub type Id = u128;

/// A point in time, in whole seconds since the Unix epoch.
pub type Timestamp = i64;

/// A probability in `[0, 1]`, held as the bit pattern of its IEEE-754
/// single-precision value. For the non-negative numbers up to one, the order
/// of the bit patterns is the order of the numbers, so two probabilities are
/// compared as integers.
pub type Probability = u32;

/// The bit pattern of `1.0`: the action always grants the item.
pub const CHANCE_ALWAYS: Probability = 0x3F80_0000;

/// The bit pattern of `0.0`: the action never grants the item.
pub const CHANCE_NEVER: Probability = 0;

/// Type of location within a town.
#[derive(Debug, Clone, Copy, PartialEq, Eq, Structural)]
pub enum LocationType {
    Shop,
    Training,
    Service,
    Social,
    Quest,
    Crafting,
    Combat,
    Travel,
    Special,
}

/// Type of action that can be performed.
#[derive(Debug, Clone, Copy, PartialEq, Eq, Structural)]
pub enum ActionType {
    Instant,
    Timed,
    Dialog,
    Navigation,
    Combat,
    Shop,
}

/// Category of action, a tag for display and filtering. The engine does not
/// read it.
#[derive(Debug, Clone, Copy, PartialEq, Eq, Structural)]
pub enum ActionCategory {
    Combat,
    Magic,
    Melee,
    Ranged,
    Heal,
    Rest,
    Shop,
    Craft,
    Social,
    Mission,
    Travel,
    Knowledge,
}

/// A town or region in the game world.
#[derive(Debug, Clone, PartialEq, Eq)]
pub struct Town {
    pub id: Id,
    pub name: String,
    pub description: Option<String>,
    pub region: String,
    /// Minimum character level to enter.
    pub required_level: i32,
    pub map_image: Option<String>,
    pub is_safe_zone: bool,
    pub created_at: Timestamp,
    pub updated_at: Timestamp,
}

/// Data for creating a new town.
#[derive(Debug, Clone, PartialEq, Eq)]
pub struct CreateTown {
    pub name: String,
    pub description: Option<String>,
    pub region: String,
    pub required_level: i32,
    pub map_image: Option<String>,
    pub is_safe_zone: bool,
}

/// A specific location within a town.
#[derive(Debug, Clone, PartialEq, Eq)]
pub struct Location {
    pub id: Id,
    pub town_id: Id,
    pub name: String,
    pub description: Option<String>,
    pub icon: String,
    pub location_type: LocationType,
    /// Horizontal map coordinate, as the bit pattern of a single-precision
    /// number. Carried for display only.
    pub map_position_x: u32,
    /// Vertical map coordinate, held like `map_position_x`.
    pub map_position_y: u32,
    pub required_level: i32,
    pub required_quest_id: Option<Id>,
    pub is_active: bool,
    pub sort_order: i32,
    pub created_at: Timestamp,
    pub updated_at: Timestamp,
}

/// An item that an action may grant, with the probability of the drop.
#[derive(Debug, Clone, Copy, PartialEq, Eq)]
pub struct ItemReward {
    pub item_id: Id,
    pub quantity: i32,
    pub chance: Probability,
}

/// The chance of an item reward that names none: the item always drops.
pub fn default_chance() -> (chance: Probability)
    ensures
        chance == CHANCE_ALWAYS,
{
    CHANCE_ALWAYS
}

impl ItemReward {
    /// The chance is a probability: a number between zero and one.
    pub open spec fn valid(self) -> bool {
        self.chance <= CHANCE_ALWAYS
    }
}

/// Changes to a character's attributes. An absent field leaves the attribute
/// as it is.
#[derive(Debug, Clone, Copy, PartialEq, Eq)]
pub struct StatChanges {
    pub health: Option<i32>,
    pub mana: Option<i32>,
    pub strength: Option<i32>,
    pub dexterity: Option<i32>,
    pub intelligence: Option<i32>,
    pub constitution: Option<i32>,
    pub wisdom: Option<i32>,
    pub charisma: Option<i32>,
}

impl Default for StatChanges {
    fn default() -> (changes: Self)
        ensures
            changes == (StatChanges {
                health: None,
                mana: None,
                strength: None,
                dexterity: None,
                intelligence: None,
                constitution: None,
                wisdom: None,
                charisma: None,
            }),
    {
        StatChanges {
            health: None,
            mana: None,
            strength: None,
            dexterity: None,
            intelligence: None,
            constitution: None,
            wisdom: None,
            charisma: None,
        }
    }
}

/// Access that an action opens: to a location, an action, a quest or a
/// skill, named by `unlock_type`. The engine reports unlocks and leaves
/// granting the access to its caller.
#[derive(Debug, Clone, PartialEq, Eq)]
pub struct UnlockReward {
    pub unlock_type: String,
    pub target_id: Id,
}

/// What an action grants. Every part may be absent, and an absent part has no
/// effect.
#[derive(Debug, Clone, PartialEq, Eq)]
pub struct ActionRewards {
    pub gold: Option<i64>,
    pub experience: Option<i64>,
    pub items: Vec<ItemReward>,
    pub stat_changes: Option<StatChanges>,
    pub unlocks: Vec<UnlockReward>,
    pub teleport_to: Option<Id>,
}

impl ActionRewards {
    /// Every item reward has a probability as its chance.
    pub open spec fn valid(self) -> bool {
        forall|i: int| 0 <= i < self.items@.len() ==> (#[trigger] self.items@[i]).valid()
    }
}

impl Default for ActionRewards {
    fn default() -> (rewards: Self)
        ensures
            rewards.gold is None,
            rewards.experience is None,
            rewards.items@ == Seq::<ItemReward>::empty(),
            rewards.stat_changes is None,
            rewards.unlocks@ == Seq::<UnlockReward>::empty(),
            rewards.teleport_to is None,
    {
        ActionRewards {
            gold: None,
            experience: None,
            items: Vec::new(),
            stat_changes: None,
            unlocks: Vec::new(),
            teleport_to: None,
        }
    }
}

/// An action that can be performed at a location.
#[derive(Debug, Clone, PartialEq, Eq)]
pub struct LocationAction {
    pub id: Id,
    pub location_id: Id,
    pub name: String,
    pub description: Option<String>,
    pub icon: String,
    pub action_type: ActionType,
    pub category: ActionCategory,
    pub required_level: i32,
    pub required_gold: i64,
    pub required_item_id: Option<Id>,
    pub required_item_quantity: i32,
    pub action_points_cost: i32,
    pub cooldown_seconds: i32,
    pub duration_seconds: i32,
    pub rewards: ActionRewards,
    pub is_repeatable: bool,
    pub is_active: bool,
    pub sort_order: i32,
    pub created_at: Timestamp,
    pub updated_at: Timestamp,
}

impl LocationAction {
    /// Costs and the cooldown are not negative, and the rewards are valid.
    pub open spec fn valid(self) -> bool {
        &&& self.cooldown_seconds >= 0
        &&& self.action_points_cost >= 0
        &&& self.required_gold >= 0
        &&& self.rewards.valid()
    }

    /// Tests [`LocationAction::valid`].
    pub fn is_valid(&self) -> (ok: bool)
        ensures
            ok == self.valid(),
    {
        if self.cooldown_seconds < 0 || self.action_points_cost < 0 || self.required_gold < 0 {
            return false;
        }
        let mut i: usize = 0;
        while i < self.rewards.items.len()
            invariant
                i <= self.rewards.items@.len(),
                forall|j: int| 0 <= j < i ==> (#[trigger] self.rewards.items@[j]).valid(),
            decreases self.rewards.items@.len() - i,
        {
            if self.rewards.items[i].chance > CHANCE_ALWAYS {
                return false;
            }
            i = i + 1;
        }
        true
    }
}

impl Keyed for Town {
    type Key = Id;

    open spec fn key(&self) -> Id {
        self.id
    }

    fn same_key(&self, other: &Self) -> (same: bool) {
        self.id == other.id
    }
}

impl Keyed for Location {
    type Key = Id;

    open spec fn key(&self) -> Id {
        self.id
    }

    fn same_key(&self, other: &Self) -> (same: bool) {
        self.id == other.id
    }
}

impl Keyed for LocationAction {
    type Key = Id;

    open spec fn key(&self) -> Id {
        self.id
    }

    fn same_key(&self, other: &Self) -> (same: bool) {
        self.id == other.id
    }
}

/// Rows from which a catalog can be built: ids are unique within each kind,
/// and every action is valid.
pub open spec fn catalog_rows_ok(
    towns: Seq<Town>,
    locations: Seq<Location>,
    actions: Seq<LocationAction>,
) -> bool {
    &&& rows_distinct(towns)
    &&& rows_distinct(locations)
    &&& rows_distinct(actions)
    &&& forall|i: int| 0 <= i < actions.len() ==> (#[trigger] actions[i]).valid()
}

/// The towns, locations and actions of the world, each found by its id.
#[derive(Debug, Clone)]
pub struct WorldCatalog {
    towns: Vec<Town>,
    locations: Vec<Location>,
    actions: Vec<LocationAction>,
}

impl WorldCatalog {
    /// The towns by id.
    pub closed spec fn town_map(self) -> Map<Id, Town> {
        rows_to_map(self.towns@)
    }

    /// The locations by id.
    pub closed spec fn location_map(self) -> Map<Id, Location> {
        rows_to_map(self.locations@)
    }

    /// The actions by id.
    pub closed spec fn action_map(self) -> Map<Id, LocationAction> {
        rows_to_map(self.actions@)
    }

    /// The towns in the order in which the catalog was given them.
    pub closed spec fn town_rows(self) -> Seq<Town> {
        self.towns@
    }

    /// The actions in the order in which the catalog was given them.
    pub closed spec fn action_rows(self) -> Seq<LocationAction> {
        self.actions@
    }

    /// The locations in the order in which the catalog was given them.
    pub closed spec fn location_rows(self) -> Seq<Location> {
        self.locations@
    }

    /// The invariant of a catalog: what [`catalog_rows_ok`] asks of its rows.
    pub closed spec fn wf(self) -> bool {
        catalog_rows_ok(self.towns@, self.locations@, self.actions@)
    }

    /// The town with this id, if there is one.
    pub open spec fn town(self, id: Id) -> Option<Town> {
        if self.town_map().dom().contains(id) {
            Some(self.town_map()[id])
        } else {
            None
        }
    }

    /// The location with this id, if there is one.
    pub open spec fn location(self, id: Id) -> Option<Location> {
        if self.location_map().dom().contains(id) {
            Some(self.location_map()[id])
        } else {
            None
        }
    }

    /// The action with this id, if there is one.
    pub open spec fn action(self, id: Id) -> Option<LocationAction> {
        if self.action_map().dom().contains(id) {
            Some(self.action_map()[id])
        } else {
            None
        }
    }

    /// Every action of a catalog is valid and is listed among its rows under
    /// its own id.
    pub proof fn lemma_actions(self)
        requires
            self.wf(),
        ensures
            rows_distinct(self.action_rows()),
            self.action_map() == rows_to_map(self.action_rows()),
            forall|i: int|
                0 <= i < self.action_rows().len() ==> (#[trigger] self.action_rows()[i]).valid(),
            forall|id: Id| #[trigger]
                self.action_map().dom().contains(id) ==> self.action_map()[id].valid()
                    && self.action_map()[id].id == id,
    {
        assert forall|id: Id| #[trigger] self.action_map().dom().contains(id) implies
            self.action_map()[id].valid() && self.action_map()[id].id == id by {
            crate::keyed::lemma_row_bound(self.actions@, id);
            let i = choose|i: int|
                0 <= i < self.actions@.len() && (#[trigger] self.actions@[i]).key() == id;
            lemma_row_lookup(self.actions@, i);
        }
    }

    /// The actions, in the order in which the catalog was given them.
    pub fn action_list(&self) -> (rows: &Vec<LocationAction>)
        ensures
            rows@ == self.action_rows(),
    {
        &self.actions
    }

    /// The locations, in the order in which the catalog was given them.
    pub fn location_list(&self) -> (rows: &Vec<Location>)
        ensures
            rows@ == self.location_rows(),
    {
        &self.locations
    }

    /// A catalog without rows.
    pub fn new() -> (catalog: Self)
        ensures
            catalog.wf(),
            catalog.town_map() == Map::<Id, Town>::empty(),
            catalog.location_map() == Map::<Id, Location>::empty(),
            catalog.action_map() == Map::<Id, LocationAction>::empty(),
            catalog.action_rows() == Seq::<LocationAction>::empty(),
            catalog.location_rows() == Seq::<Location>::empty(),
            catalog.town_rows() == Seq::<Town>::empty(),
    {
        WorldCatalog { towns: Vec::new(), locations: Vec::new(), actions: Vec::new() }
    }

    /// Builds the catalog from its rows. The rows are refused where two of a
    /// kind share an id or an action is not valid.
    pub fn from_rows(
        towns: Vec<Town>,
        locations: Vec<Location>,
        actions: Vec<LocationAction>,
    ) -> (catalog: Option<Self>)
        ensures
            catalog is Some <==> catalog_rows_ok(towns@, locations@, actions@),
            catalog matches Some(c) ==> {
                &&& c.wf()
                &&& c.town_map() == rows_to_map(towns@)
                &&& c.location_map() == rows_to_map(locations@)
                &&& c.action_map() == rows_to_map(actions@)
                &&& c.action_rows() == actions@
                &&& c.location_rows() == locations@
                &&& c.town_rows() == towns@
            },
    {
        if !all_keys_distinct(&towns) || !all_keys_distinct(&locations) || !all_keys_distinct(
            &actions,
        ) {
            return None;
        }
        let mut i: usize = 0;
        while i < actions.len()
            invariant
                i <= actions@.len(),
                forall|j: int| 0 <= j < i ==> (#[trigger] actions@[j]).valid(),
            decreases actions@.len() - i,
        {
            if !actions[i].is_valid() {
                return None;
            }
            i = i + 1;
        }
        Some(WorldCatalog { towns, locations, actions })
    }
}

/// Get a town by id.
pub fn get_town_by_id<'a>(catalog: &'a WorldCatalog, town_id: Id) -> (town: Option<&'a Town>)
    requires
        catalog.wf(),
    ensures
        match town {
            Some(t) => catalog.town(town_id) == Some(*t),
            None => catalog.town(town_id) is None,
        },
{
    let mut i: usize = 0;
    while i < catalog.towns.len()
        invariant
            catalog.wf(),
            i <= catalog.towns@.len(),
            forall|j: int| 0 <= j < i ==> (#[trigger] catalog.towns@[j]).key() != town_id,
        decreases catalog.towns@.len() - i,
    {
        if catalog.towns[i].id == town_id {
            proof {
                lemma_row_lookup(catalog.towns@, i as int);
            }
            return Some(&catalog.towns[i]);
        }
        i = i + 1;
    }
    proof {
        lemma_row_absent(catalog.towns@, town_id);
    }
    None
}

/// The region in which new players start.
pub open spec fn starting_region() -> Seq<char> {
    "starting_zone"@
}

/// Whether the town at `place` is the starting town among `towns`: it lies
/// in the starting region, no town of that region asks a lower level, and
/// no earlier town of that region asks the same level.
pub open spec fn is_starting_town(towns: Seq<Town>, place: int) -> bool {
    &&& 0 <= place < towns.len()
    &&& towns[place].region@ == starting_region()
    &&& forall|j: int|
        0 <= j < towns.len() && (#[trigger] towns[j]).region@ == starting_region()
            ==> towns[place].required_level <= towns[j].required_level
    &&& forall|j: int|
        0 <= j < place && (#[trigger] towns[j]).region@ == starting_region()
            ==> towns[place].required_level < towns[j].required_level
}

/// Get starting town: the town of the starting region that asks the lowest
/// level, and the first of them in the catalog where several ask it. There
/// is none exactly where the starting region has no town.
pub fn get_starting_town<'a>(catalog: &'a WorldCatalog) -> (town: Option<&'a Town>)
    requires
        catalog.wf(),
    ensures
        match town {
            Some(t) => catalog.town(t.id) == Some(*t) && exists|place: int|
                is_starting_town(catalog.town_rows(), place) && #[trigger] catalog.town_rows()[place]
                    == *t,
            None => forall|j: int|
                0 <= j < catalog.town_rows().len() ==> (#[trigger] catalog.town_rows()[j]).region@
                    != starting_region(),
        },
{
    let mut best: Option<usize> = None;
    let mut i: usize = 0;
    while i < catalog.towns.len()
        invariant
            i <= catalog.towns@.len(),
            match best {
                Some(place) => place < i && is_starting_town(
                    catalog.towns@.take(i as int),
                    place as int,
                ),
                None => forall|j: int|
                    0 <= j < i ==> (#[trigger] catalog.towns@[j]).region@ != starting_region(),
            },
        decreases catalog.towns@.len() - i,
    {
        let ghost seen = catalog.towns@.take(i as int);
        let ghost next = catalog.towns@.take(i + 1);
        proof {
            assert forall|j: int| 0 <= j < seen.len() implies seen[j] == next[j] by {}
            assert(next[i as int] == catalog.towns@[i as int]);
        }
        if same_text(catalog.towns[i].region.as_str(), "starting_zone") {
            match best {
                Some(place) => {
                    if catalog.towns[i].required_level < catalog.towns[place].required_level {
                        best = Some(i);
                    }
                },
                None => {
                    best = Some(i);
                },
            }
        }
        i = i + 1;
    }
    proof {
        assert(catalog.towns@.take(i as int) =~= catalog.towns@);
    }
    match best {
        Some(place) => {
            proof {
                lemma_row_lookup(catalog.towns@, place as int);
            }
            Some(&catalog.towns[place])
        },
        None => None,
    }
}

/// Get a location by id.
pub fn get_location_by_id<'a>(catalog: &'a WorldCatalog, location_id: Id) -> (location: Option<
    &'a Location,
>)
    requires
        catalog.wf(),
    ensures
        match location {
            Some(l) => catalog.location(location_id) == Some(*l),
            None => catalog.location(location_id) is None,
        },
{
    let mut i: usize = 0;
    while i < catalog.locations.len()
        invariant
            catalog.wf(),
            i <= catalog.locations@.len(),
            forall|j: int| 0 <= j < i ==> (#[trigger] catalog.locations@[j]).key() != location_id,
        decreases catalog.locations@.len() - i,
    {
        if catalog.locations[i].id == location_id {
            proof {
                lemma_row_lookup(catalog.locations@, i as int);
            }
            return Some(&catalog.locations[i]);
        }
        i = i + 1;
    }
    proof {
        lemma_row_absent(catalog.locations@, location_id);
    }
    None
}

/// Get a single action by id.
pub fn get_action_by_id<'a>(catalog: &'a WorldCatalog, action_id: Id) -> (action: Option<
    &'a LocationAction,
>)
    requires
        catalog.wf(),
    ensures
        match action {
            Some(a) => catalog.action(action_id) == Some(*a),
            None => catalog.action(action_id) is None,
        },
{
    let mut i: usize = 0;
    while i < catalog.actions.len()
        invariant
            catalog.wf(),
            i <= catalog.actions@.len(),
            forall|j: int| 0 <= j < i ==> (#[trigger] catalog.actions@[j]).key() != action_id,
        decreases catalog.actions@.len() - i,
    {
        if catalog.actions[i].id == action_id {
            proof {
                lemma_row_lookup(catalog.actions@, i as int);
            }
            return Some(&catalog.actions[i]);
        }
        i = i + 1;
    }
    proof {
        lemma_row_absent(catalog.actions@, action_id);
    }
    None
}

/// The active locations of a town among `locations`, in the same order.
pub open spec fn active_locations_in(locations: Seq<Location>, town_id: Id) -> Seq<Location>
    decreases locations.len(),
{
    if locations.len() == 0 {
        Seq::empty()
    } else {
        let earlier = active_locations_in(locations.drop_last(), town_id);
        if locations.last().town_id == town_id && locations.last().is_active {
            earlier.push(locations.last())
        } else {
            earlier
        }
    }
}

/// The active actions of a location among `actions`, in the same order.
pub open spec fn active_actions_at(actions: Seq<LocationAction>, location_id: Id) -> Seq<
    LocationAction,
>
    decreases actions.len(),
{
    if actions.len() == 0 {
        Seq::empty()
    } else {
        let earlier = active_actions_at(actions.drop_last(), location_id);
        if actions.last().location_id == location_id && actions.last().is_active {
            earlier.push(actions.last())
        } else {
            earlier
        }
    }
}

impl Listed for Location {
    open spec fn sort_key(&self) -> SortKey {
        (self.sort_order as int, self.name@)
    }

    fn not_after(&self, other: &Self) -> (le: bool) {
        self.sort_order < other.sort_order || (self.sort_order == other.sort_order
            && text_not_after(self.name.as_str(), other.name.as_str()))
    }
}

impl Listed for LocationAction {
    open spec fn sort_key(&self) -> SortKey {
        (self.sort_order as int, self.name@)
    }

    fn not_after(&self, other: &Self) -> (le: bool) {
        self.sort_order < other.sort_order || (self.sort_order == other.sort_order
            && text_not_after(self.name.as_str(), other.name.as_str()))
    }
}

/// Get all locations for a town: its active locations, ascending by sort
/// order and then by name. Locations that agree in both keep the order of
/// the catalog.
pub fn get_locations_by_town<'a>(catalog: &'a WorldCatalog, town_id: Id) -> (locations: Vec<
    &'a Location,
>)
    ensures
        pointees(locations@) == arranged(active_locations_in(catalog.location_rows(), town_id)),
        in_order(pointees(locations@)),
        pointees(locations@).to_multiset() == active_locations_in(
            catalog.location_rows(),
            town_id,
        ).to_multiset(),
{
    let rows = catalog.location_list();
    let mut locations: Vec<&'a Location> = Vec::new();
    let mut i: usize = 0;
    while i < rows.len()
        invariant
            i <= rows@.len(),
            pointees(locations@) == arranged(active_locations_in(rows@.take(i as int), town_id)),
        decreases rows@.len() - i,
    {
        let location = &rows[i];
        let ghost found = active_locations_in(rows@.take(i as int), town_id);
        proof {
            assert(rows@.take(i + 1).drop_last() =~= rows@.take(i as int));
            assert(found.push(*location).drop_last() =~= found);
        }
        if location.town_id == town_id && location.is_active {
            place(&mut locations, location);
        }
        i = i + 1;
    }
    proof {
        assert(rows@.take(i as int) =~= rows@);
        lemma_arranged(active_locations_in(rows@, town_id));
    }
    locations
}

/// Get all actions for a location: its active actions, ascending by sort
/// order and then by name. Actions that agree in both keep the order of the
/// catalog.
pub fn get_actions_by_location<'a>(catalog: &'a WorldCatalog, location_id: Id) -> (actions: Vec<
    &'a LocationAction,
>)
    ensures
        pointees(actions@) == arranged(active_actions_at(catalog.action_rows(), location_id)),
        in_order(pointees(actions@)),
        pointees(actions@).to_multiset() == active_actions_at(
            catalog.action_rows(),
            location_id,
        ).to_multiset(),
{
    let rows = catalog.action_list();
    let mut actions: Vec<&'a LocationAction> = Vec::new();
    let mut i: usize = 0;
    while i < rows.len()
        invariant
            i <= rows@.len(),
            pointees(actions@) == arranged(active_actions_at(rows@.take(i as int), location_id)),
        decreases rows@.len() - i,
    {
        let action = &rows[i];
        let ghost found = active_actions_at(rows@.take(i as int), location_id);
        proof {
            assert(rows@.take(i + 1).drop_last() =~= rows@.take(i as int));
            assert(found.push(*action).drop_last() =~= found);
        }
        if action.location_id == location_id && action.is_active {
            place(&mut actions, action);
        }
        i = i + 1;
    }
    proof {
        assert(rows@.take(i as int) =~= rows@);
        lemma_arranged(active_actions_at(rows@, location_id));
    }
    actions
}

} // verus!
