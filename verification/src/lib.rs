//! Action resolution for a persistent-world game.
//!
//! A player controls a character that stands at one location of one town and
//! invokes the actions that the location offers. An action asks for a level,
//! currency, action points, an item and a free cooldown; it costs what it
//! asks in currency, action points and items; and it rewards with currency,
//! experience, items that drop by chance, attribute changes, unlocks or a
//! move to another location.
//!
//! The engine decides whether an action may run, changes the character, and
//! says what the rewards came to:
//!
//! - [`catalog`] holds the towns, locations and actions: reference data.
//!   [`listing`] is the order in which it lists them.
//! - [`character`] and [`store`] hold the characters with their cooldowns,
//!   completions and inventory lines; [`cooldown`], [`completion`],
//!   [`inventory`] and [`roster`] are the operations on them, and
//!   [`changes`] says what an operation has to write back.
//! - [`eligibility`] is the evaluator: may this character invoke this
//!   action now?
//! - [`reward`] is the resolver: what do the rewards come to on these
//!   draws, and what does that do to the character?
//! - [`engine`] executes an action, all or nothing, and lists the actions
//!   that are on offer.
//! - [`laws`] proves what holds of every execution.
//!
//! Around the engine stand what the pages of the game ask of it: [`api`]
//! and [`ids`] for requests and answers, [`player`] and [`wallet`] for the
//! login, [`display`] for texts, [`skill`] for what a skill is made from.
//!
//! The library keeps no clock, draws no random numbers and reaches no
//! database. The time, the draws and the rows are handed to it; ids are
//! 128-bit numbers, times are whole seconds, and probabilities are the bit
//! patterns of single-precision numbers.

pub mod api;
pub mod arith;
pub mod catalog;
pub mod changes;
pub mod character;
pub mod completion;
pub mod cooldown;
pub mod display;
pub mod eligibility;
pub mod engine;
pub mod ids;
pub mod inventory;
pub mod keyed;
pub mod laws;
pub mod listing;
pub mod player;
pub mod reward;
pub mod roster;
pub mod skill;
pub mod store;
pub mod text;
pub mod wallet;
