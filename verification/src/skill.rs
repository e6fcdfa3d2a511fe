//! Skills that characters can learn.

use vstd::prelude::*;

verus! {

/// Data for creating a new skill.
#[derive(Debug, Clone, PartialEq, Eq)]
pub struct CreateSkill {
    pub name: String,
    pub description: Option<String>,
    pub skill_type: String,
    pub element: Option<String>,
    pub mana_cost: i32,
    pub cooldown_seconds: i32,
    pub base_damage: Option<i32>,
    pub required_level: i32,
}

} // verus!
