//! What the presentation layer is served: towns, locations, actions and
//! players with their ids as text, and the checks on what it sends.

use vstd::prelude::*;
use crate::catalog::{
    active_actions_at, active_locations_in, ActionCategory, ActionType, Id, Location,
    LocationAction, LocationType, Town, WorldCatalog,
};
use crate::listing::{arranged, pointees};
use crate::ids::{hyphenated, id_text, parse_id, parsed_uuid};
use crate::player::{CreatePlayer, Player};
use crate::text::{copy_optional, optional_text};

verus! {

/// Location information returned to the client.
#[derive(Debug, Clone, PartialEq, Eq)]
pub struct LocationInfo {
    pub id: String,
    pub town_id: String,
    pub name: String,
    pub description: Option<String>,
    pub icon: String,
    pub location_type: String,
    /// Horizontal map coordinate, as the bit pattern of a single-precision
    /// number.
    pub map_position_x: u32,
    /// Vertical map coordinate, held like `map_position_x`.
    pub map_position_y: u32,
}

/// Town information returned to the client.
#[derive(Debug, Clone, PartialEq, Eq)]
pub struct TownInfo {
    pub id: String,
    pub name: String,
    pub description: Option<String>,
    pub region: String,
    pub required_level: i32,
    pub map_image: Option<String>,
    pub is_safe_zone: bool,
}

/// Action information returned to the client.
#[derive(Debug, Clone, PartialEq, Eq)]
pub struct ActionInfo {
    pub id: String,
    pub location_id: String,
    pub name: String,
    pub description: Option<String>,
    pub icon: String,
    pub action_type: String,
    pub category: String,
    pub required_level: i32,
    pub required_gold: i64,
    pub action_points_cost: i32,
    pub cooldown_seconds: i32,
    pub duration_seconds: i32,
    pub is_repeatable: bool,
}

/// Player information returned to the client.
#[derive(Debug, Clone, PartialEq, Eq)]
pub struct PlayerInfo {
    pub id: String,
    pub wallet_address: String,
    pub username: Option<String>,
    pub is_new: bool,
}

/// Why a request of the client was refused.
#[derive(Debug, Clone, Copy, PartialEq, Eq, Structural)]
pub enum ApiError {
    /// The text is not the id of a location.
    InvalidLocationId,
    /// The text is not the id of a town.
    InvalidTownId,
    /// The text is not the id of a player.
    InvalidPlayerId,
    /// The username is shorter than three or longer than thirty-two bytes.
    UsernameLength,
    /// Another player has the username.
    UsernameTaken,
}

/// The message of a refusal.
pub open spec fn message_text(error: ApiError) -> Seq<char> {
    match error {
        ApiError::InvalidLocationId => "Invalid location ID format"@,
        ApiError::InvalidTownId => "Invalid town ID format"@,
        ApiError::InvalidPlayerId => "Invalid player ID"@,
        ApiError::UsernameLength => "Username must be between 3 and 32 characters"@,
        ApiError::UsernameTaken => "Username is already taken"@,
    }
}

impl ApiError {
    /// The message that the client is shown.
    pub fn message(&self) -> (message: String)
        ensures
            message@ == message_text(*self),
    {
        match self {
            ApiError::InvalidLocationId => String::from_str("Invalid location ID format"),
            ApiError::InvalidTownId => String::from_str("Invalid town ID format"),
            ApiError::InvalidPlayerId => String::from_str("Invalid player ID"),
            ApiError::UsernameLength => String::from_str(
                "Username must be between 3 and 32 characters",
            ),
            ApiError::UsernameTaken => String::from_str("Username is already taken"),
        }
    }
}

/// The shortest username, in bytes.
pub const MIN_USERNAME_LENGTH: usize = 3;

/// The longest username, in bytes.
pub const MAX_USERNAME_LENGTH: usize = 32;

/// The name of a location type.
pub open spec fn location_type_text(location_type: LocationType) -> Seq<char> {
    match location_type {
        LocationType::Shop => "Shop"@,
        LocationType::Training => "Training"@,
        LocationType::Service => "Service"@,
        LocationType::Social => "Social"@,
        LocationType::Quest => "Quest"@,
        LocationType::Crafting => "Crafting"@,
        LocationType::Combat => "Combat"@,
        LocationType::Travel => "Travel"@,
        LocationType::Special => "Special"@,
    }
}

/// The name of an action type.
pub open spec fn action_type_text(action_type: ActionType) -> Seq<char> {
    match action_type {
        ActionType::Instant => "Instant"@,
        ActionType::Timed => "Timed"@,
        ActionType::Dialog => "Dialog"@,
        ActionType::Navigation => "Navigation"@,
        ActionType::Combat => "Combat"@,
        ActionType::Shop => "Shop"@,
    }
}

/// The name of an action category.
pub open spec fn action_category_text(category: ActionCategory) -> Seq<char> {
    match category {
        ActionCategory::Combat => "Combat"@,
        ActionCategory::Magic => "Magic"@,
        ActionCategory::Melee => "Melee"@,
        ActionCategory::Ranged => "Ranged"@,
        ActionCategory::Heal => "Heal"@,
        ActionCategory::Rest => "Rest"@,
        ActionCategory::Shop => "Shop"@,
        ActionCategory::Craft => "Craft"@,
        ActionCategory::Social => "Social"@,
        ActionCategory::Mission => "Mission"@,
        ActionCategory::Travel => "Travel"@,
        ActionCategory::Knowledge => "Knowledge"@,
    }
}

/// Whether the text is the id as the client is sent it: the id in the
/// hyphenated form, from which the id is read back when the client sends
/// the text in a request.
pub open spec fn is_id_text(text: Seq<char>, id: Id) -> bool {
    text == hyphenated(id) && parsed_uuid(text) == Some(id)
}

/// Whether the information is that of the location.
pub open spec fn is_location_info(info: LocationInfo, location: Location) -> bool {
    &&& is_id_text(info.id@, location.id)
    &&& is_id_text(info.town_id@, location.town_id)
    &&& info.name@ == location.name@
    &&& optional_text(info.description) == optional_text(location.description)
    &&& info.icon@ == location.icon@
    &&& info.location_type@ == location_type_text(location.location_type)
    &&& info.map_position_x == location.map_position_x
    &&& info.map_position_y == location.map_position_y
}

/// Whether the information is that of the town.
pub open spec fn is_town_info(info: TownInfo, town: Town) -> bool {
    &&& is_id_text(info.id@, town.id)
    &&& info.name@ == town.name@
    &&& optional_text(info.description) == optional_text(town.description)
    &&& info.region@ == town.region@
    &&& info.required_level == town.required_level
    &&& optional_text(info.map_image) == optional_text(town.map_image)
    &&& info.is_safe_zone == town.is_safe_zone
}

/// Whether the information is that of the action.
pub open spec fn is_action_info(info: ActionInfo, action: LocationAction) -> bool {
    &&& is_id_text(info.id@, action.id)
    &&& is_id_text(info.location_id@, action.location_id)
    &&& info.name@ == action.name@
    &&& optional_text(info.description) == optional_text(action.description)
    &&& info.icon@ == action.icon@
    &&& info.action_type@ == action_type_text(action.action_type)
    &&& info.category@ == action_category_text(action.category)
    &&& info.required_level == action.required_level
    &&& info.required_gold == action.required_gold
    &&& info.action_points_cost == action.action_points_cost
    &&& info.cooldown_seconds == action.cooldown_seconds
    &&& info.duration_seconds == action.duration_seconds
    &&& info.is_repeatable == action.is_repeatable
}

/// Whether the information is that of the player.
pub open spec fn is_player_info(info: PlayerInfo, player: Player, is_new: bool) -> bool {
    &&& is_id_text(info.id@, player.id)
    &&& info.wallet_address@ == player.wallet_address@
    &&& optional_text(info.username) == optional_text(player.username)
    &&& info.is_new == is_new
}

/// The name of a location type.
pub fn location_type_name(location_type: LocationType) -> (name: String)
    ensures
        name@ == location_type_text(location_type),
{
    match location_type {
        LocationType::Shop => String::from_str("Shop"),
        LocationType::Training => String::from_str("Training"),
        LocationType::Service => String::from_str("Service"),
        LocationType::Social => String::from_str("Social"),
        LocationType::Quest => String::from_str("Quest"),
        LocationType::Crafting => String::from_str("Crafting"),
        LocationType::Combat => String::from_str("Combat"),
        LocationType::Travel => String::from_str("Travel"),
        LocationType::Special => String::from_str("Special"),
    }
}

/// The name of an action type.
pub fn action_type_name(action_type: ActionType) -> (name: String)
    ensures
        name@ == action_type_text(action_type),
{
    match action_type {
        ActionType::Instant => String::from_str("Instant"),
        ActionType::Timed => String::from_str("Timed"),
        ActionType::Dialog => String::from_str("Dialog"),
        ActionType::Navigation => String::from_str("Navigation"),
        ActionType::Combat => String::from_str("Combat"),
        ActionType::Shop => String::from_str("Shop"),
    }
}

/// The name of an action category.
pub fn action_category_name(category: ActionCategory) -> (name: String)
    ensures
        name@ == action_category_text(category),
{
    match category {
        ActionCategory::Combat => String::from_str("Combat"),
        ActionCategory::Magic => String::from_str("Magic"),
        ActionCategory::Melee => String::from_str("Melee"),
        ActionCategory::Ranged => String::from_str("Ranged"),
        ActionCategory::Heal => String::from_str("Heal"),
        ActionCategory::Rest => String::from_str("Rest"),
        ActionCategory::Shop => String::from_str("Shop"),
        ActionCategory::Craft => String::from_str("Craft"),
        ActionCategory::Social => String::from_str("Social"),
        ActionCategory::Mission => String::from_str("Mission"),
        ActionCategory::Travel => String::from_str("Travel"),
        ActionCategory::Knowledge => String::from_str("Knowledge"),
    }
}

/// The information on a location that the client is sent.
pub fn location_info(location: &Location) -> (info: LocationInfo)
    ensures
        is_location_info(info, *location),
{
    LocationInfo {
        id: id_text(location.id),
        town_id: id_text(location.town_id),
        name: location.name.clone(),
        description: copy_optional(&location.description),
        icon: location.icon.clone(),
        location_type: location_type_name(location.location_type),
        map_position_x: location.map_position_x,
        map_position_y: location.map_position_y,
    }
}

/// The information on a town that the client is sent.
pub fn town_info(town: &Town) -> (info: TownInfo)
    ensures
        is_town_info(info, *town),
{
    TownInfo {
        id: id_text(town.id),
        name: town.name.clone(),
        description: copy_optional(&town.description),
        region: town.region.clone(),
        required_level: town.required_level,
        map_image: copy_optional(&town.map_image),
        is_safe_zone: town.is_safe_zone,
    }
}

/// The information on an action that the client is sent.
pub fn action_info(action: &LocationAction) -> (info: ActionInfo)
    ensures
        is_action_info(info, *action),
{
    ActionInfo {
        id: id_text(action.id),
        location_id: id_text(action.location_id),
        name: action.name.clone(),
        description: copy_optional(&action.description),
        icon: action.icon.clone(),
        action_type: action_type_name(action.action_type),
        category: action_category_name(action.category),
        required_level: action.required_level,
        required_gold: action.required_gold,
        action_points_cost: action.action_points_cost,
        cooldown_seconds: action.cooldown_seconds,
        duration_seconds: action.duration_seconds,
        is_repeatable: action.is_repeatable,
    }
}

/// The information on a player that the client is sent; `is_new` says
/// whether the account was made on this login.
pub fn player_info(player: &Player, is_new: bool) -> (info: PlayerInfo)
    ensures
        is_player_info(info, *player, is_new),
{
    PlayerInfo {
        id: id_text(player.id),
        wallet_address: player.wallet_address.clone(),
        username: copy_optional(&player.username),
        is_new,
    }
}

/// What a login comes to once the wallet address has been looked up.
#[derive(Debug, Clone, PartialEq, Eq)]
pub enum Login {
    /// A player has the address: the information on it, to send.
    Known(PlayerInfo),
    /// No player has the address: the account to create.
    Register(CreatePlayer),
}

/// Authenticates a player by wallet address, given the player that was
/// found under the address, if any. A player that is known is let in. For
/// an address that is new, the account to register is returned: it has the
/// address and no username yet, and the information on it is made with
/// [`player_info`] once it is stored.
pub fn authenticate_player(existing: Option<&Player>, wallet_address: String) -> (login: Login)
    ensures
        match existing {
            Some(player) => login matches Login::Known(info) && is_player_info(
                info,
                *player,
                false,
            ),
            None => login == Login::Register(CreatePlayer { wallet_address, username: None }),
        },
{
    match existing {
        Some(player) => Login::Known(player_info(player, false)),
        None => Login::Register(CreatePlayer { wallet_address, username: None }),
    }
}

/// The information on the location with the id that was read from the
/// request: an error where no id was read, nothing where no location has the
/// id.
pub fn find_location_info(catalog: &WorldCatalog, location_id: Option<Id>) -> (found: Result<
    Option<LocationInfo>,
    ApiError,
>)
    requires
        catalog.wf(),
    ensures
        match location_id {
            None => found == Err::<Option<LocationInfo>, ApiError>(ApiError::InvalidLocationId),
            Some(id) => match catalog.location(id) {
                None => found == Ok::<Option<LocationInfo>, ApiError>(None),
                Some(location) => found matches Ok(Some(info)) && is_location_info(info, location),
            },
        },
{
    match location_id {
        None => Err(ApiError::InvalidLocationId),
        Some(id) => match crate::catalog::get_location_by_id(catalog, id) {
            None => Ok(None),
            Some(location) => Ok(Some(location_info(location))),
        },
    }
}

/// Get a location by the text of its id.
pub fn get_location_by_id(catalog: &WorldCatalog, location_id: &str) -> (found: Result<
    Option<LocationInfo>,
    ApiError,
>)
    requires
        catalog.wf(),
    ensures
        match parsed_uuid(location_id@) {
            None => found == Err::<Option<LocationInfo>, ApiError>(ApiError::InvalidLocationId),
            Some(id) => match catalog.location(id) {
                None => found == Ok::<Option<LocationInfo>, ApiError>(None),
                Some(location) => found matches Ok(Some(info)) && is_location_info(info, location),
            },
        },
{
    find_location_info(catalog, parse_id(location_id))
}

/// The information on the town with the id that was read from the request:
/// an error where no id was read, nothing where no town has the id.
pub fn find_town_info(catalog: &WorldCatalog, town_id: Option<Id>) -> (found: Result<
    Option<TownInfo>,
    ApiError,
>)
    requires
        catalog.wf(),
    ensures
        match town_id {
            None => found == Err::<Option<TownInfo>, ApiError>(ApiError::InvalidTownId),
            Some(id) => match catalog.town(id) {
                None => found == Ok::<Option<TownInfo>, ApiError>(None),
                Some(town) => found matches Ok(Some(info)) && is_town_info(info, town),
            },
        },
{
    match town_id {
        None => Err(ApiError::InvalidTownId),
        Some(id) => match crate::catalog::get_town_by_id(catalog, id) {
            None => Ok(None),
            Some(town) => Ok(Some(town_info(town))),
        },
    }
}

/// Get a town by the text of its id.
pub fn get_town_by_id(catalog: &WorldCatalog, town_id: &str) -> (found: Result<
    Option<TownInfo>,
    ApiError,
>)
    requires
        catalog.wf(),
    ensures
        match parsed_uuid(town_id@) {
            None => found == Err::<Option<TownInfo>, ApiError>(ApiError::InvalidTownId),
            Some(id) => match catalog.town(id) {
                None => found == Ok::<Option<TownInfo>, ApiError>(None),
                Some(town) => found matches Ok(Some(info)) && is_town_info(info, town),
            },
        },
{
    find_town_info(catalog, parse_id(town_id))
}

/// Whether the list holds the information on the locations, one by one.
pub open spec fn are_location_infos(infos: Seq<LocationInfo>, locations: Seq<Location>) -> bool {
    &&& infos.len() == locations.len()
    &&& forall|i: int| 0 <= i < infos.len() ==> is_location_info(#[trigger] infos[i], locations[i])
}

/// Whether the list holds the information on the actions, one by one.
pub open spec fn are_action_infos(infos: Seq<ActionInfo>, actions: Seq<LocationAction>) -> bool {
    &&& infos.len() == actions.len()
    &&& forall|i: int| 0 <= i < infos.len() ==> is_action_info(#[trigger] infos[i], actions[i])
}

/// The information on the active locations of the town with the id that was
/// read from the request, ascending by sort order and then by name.
pub fn list_location_infos(catalog: &WorldCatalog, town_id: Option<Id>) -> (found: Result<
    Vec<LocationInfo>,
    ApiError,
>)
    ensures
        match town_id {
            None => found == Err::<Vec<LocationInfo>, ApiError>(ApiError::InvalidTownId),
            Some(id) => found matches Ok(infos) && are_location_infos(
                infos@,
                arranged(active_locations_in(catalog.location_rows(), id)),
            ),
        },
{
    match town_id {
        None => Err(ApiError::InvalidTownId),
        Some(id) => {
            let locations = crate::catalog::get_locations_by_town(catalog, id);
            let mut infos: Vec<LocationInfo> = Vec::new();
            let mut i: usize = 0;
            while i < locations.len()
                invariant
                    i <= locations@.len(),
                    infos@.len() == i,
                    forall|j: int|
                        0 <= j < i ==> is_location_info(#[trigger] infos@[j], *locations@[j]),
                decreases locations@.len() - i,
            {
                infos.push(location_info(locations[i]));
                i = i + 1;
            }
            proof {
                let values = pointees(locations@);
                assert forall|j: int| 0 <= j < infos@.len() implies is_location_info(
                    #[trigger] infos@[j],
                    values[j],
                ) by {
                    assert(values[j] == *locations@[j]);
                }
            }
            Ok(infos)
        },
    }
}

/// Get all locations for a town, by the text of its id.
pub fn get_locations_by_town(catalog: &WorldCatalog, town_id: &str) -> (found: Result<
    Vec<LocationInfo>,
    ApiError,
>)
    ensures
        match parsed_uuid(town_id@) {
            None => found == Err::<Vec<LocationInfo>, ApiError>(ApiError::InvalidTownId),
            Some(id) => found matches Ok(infos) && are_location_infos(
                infos@,
                arranged(active_locations_in(catalog.location_rows(), id)),
            ),
        },
{
    list_location_infos(catalog, parse_id(town_id))
}

/// The information on the active actions of the location with the id that
/// was read from the request, ascending by sort order and then by name.
pub fn list_action_infos(catalog: &WorldCatalog, location_id: Option<Id>) -> (found: Result<
    Vec<ActionInfo>,
    ApiError,
>)
    ensures
        match location_id {
            None => found == Err::<Vec<ActionInfo>, ApiError>(ApiError::InvalidLocationId),
            Some(id) => found matches Ok(infos) && are_action_infos(
                infos@,
                arranged(active_actions_at(catalog.action_rows(), id)),
            ),
        },
{
    match location_id {
        None => Err(ApiError::InvalidLocationId),
        Some(id) => {
            let actions = crate::catalog::get_actions_by_location(catalog, id);
            let mut infos: Vec<ActionInfo> = Vec::new();
            let mut i: usize = 0;
            while i < actions.len()
                invariant
                    i <= actions@.len(),
                    infos@.len() == i,
                    forall|j: int|
                        0 <= j < i ==> is_action_info(#[trigger] infos@[j], *actions@[j]),
                decreases actions@.len() - i,
            {
                infos.push(action_info(actions[i]));
                i = i + 1;
            }
            proof {
                let values = pointees(actions@);
                assert forall|j: int| 0 <= j < infos@.len() implies is_action_info(
                    #[trigger] infos@[j],
                    values[j],
                ) by {
                    assert(values[j] == *actions@[j]);
                }
            }
            Ok(infos)
        },
    }
}

/// Get all actions for a location, by the text of its id.
pub fn get_actions_by_location(catalog: &WorldCatalog, location_id: &str) -> (found: Result<
    Vec<ActionInfo>,
    ApiError,
>)
    ensures
        match parsed_uuid(location_id@) {
            None => found == Err::<Vec<ActionInfo>, ApiError>(ApiError::InvalidLocationId),
            Some(id) => found matches Ok(infos) && are_action_infos(
                infos@,
                arranged(active_actions_at(catalog.action_rows(), id)),
            ),
        },
{
    list_action_infos(catalog, parse_id(location_id))
}

/// Whether a username has an accepted length: from three to thirty-two
/// bytes.
pub open spec fn username_length_ok(username: &str) -> bool {
    MIN_USERNAME_LENGTH <= username.len() <= MAX_USERNAME_LENGTH
}

/// Checks the length of a username.
pub fn check_username(username: &str) -> (checked: Result<(), ApiError>)
    ensures
        checked == if username_length_ok(username) {
            Ok::<(), ApiError>(())
        } else {
            Err::<(), ApiError>(ApiError::UsernameLength)
        },
{
    if username.len() < MIN_USERNAME_LENGTH || username.len() > MAX_USERNAME_LENGTH {
        Err(ApiError::UsernameLength)
    } else {
        Ok(())
    }
}

/// Checks a request to change a username, given the id that was read from
/// it: the length of the username first, then the id. Returns the id of the
/// player.
pub fn check_username_change(player_id: Option<Id>, username: &str) -> (checked: Result<
    Id,
    ApiError,
>)
    ensures
        checked == if !username_length_ok(username) {
            Err::<Id, ApiError>(ApiError::UsernameLength)
        } else {
            match player_id {
                Some(id) => Ok::<Id, ApiError>(id),
                None => Err::<Id, ApiError>(ApiError::InvalidPlayerId),
            }
        },
{
    match check_username(username) {
        Err(error) => Err(error),
        Ok(()) => match player_id {
            Some(id) => Ok(id),
            None => Err(ApiError::InvalidPlayerId),
        },
    }
}

/// Checks a request to change a username: the length of the username
/// first, then the text of the player's id. Returns the id of the player.
pub fn update_username(player_id: &str, username: &str) -> (checked: Result<Id, ApiError>)
    ensures
        checked == if !username_length_ok(username) {
            Err::<Id, ApiError>(ApiError::UsernameLength)
        } else {
            match parsed_uuid(player_id@) {
                Some(id) => Ok::<Id, ApiError>(id),
                None => Err::<Id, ApiError>(ApiError::InvalidPlayerId),
            }
        },
{
    check_username_change(parse_id(player_id), username)
}

/// Decides whether a username is free, given how many other players have
/// it, where that was counted.
pub fn ensure_username_free(others_with_name: Option<i64>) -> (checked: Result<(), ApiError>)
    ensures
        checked == if others_with_name matches Some(count) && count > 0 {
            Err::<(), ApiError>(ApiError::UsernameTaken)
        } else {
            Ok::<(), ApiError>(())
        },
{
    match others_with_name {
        Some(count) => if count > 0 {
            Err(ApiError::UsernameTaken)
        } else {
            Ok(())
        },
        None => Ok(()),
    }
}

} // verus!
