//! Texts that the pages show: what an action costs, and where a page lives.

use vstd::prelude::*;
use crate::text::same_text;

verus! {

/// The ten digits.
pub open spec fn decimal_digit(n: int) -> char {
    seq!['0', '1', '2', '3', '4', '5', '6', '7', '8', '9'][n]
}

/// A natural number in decimal digits, without leading zeros.
pub open spec fn decimal_digits(n: nat) -> Seq<char>
    decreases n,
{
    if n < 10 {
        seq![decimal_digit(n as int)]
    } else {
        decimal_digits(n / 10).push(decimal_digit((n % 10) as int))
    }
}

/// A number in decimal digits, with a minus sign where it is negative.
pub open spec fn decimal_text(n: int) -> Seq<char> {
    if n < 0 {
        seq!['-'] + decimal_digits((-n) as nat)
    } else {
        decimal_digits(n as nat)
    }
}

/// Calls `to_string` of std on a 64-bit number, which writes it as its
/// `Display` does. The contract claims that this is the number in decimal
/// digits, with a minus sign before a negative one and no other sign, space
/// or leading zero.
#[verifier::external_body]
fn decimal(n: i64) -> (text: String)
    ensures
        text@ == decimal_text(n as int),
{
    n.to_string()
}

/// What an action costs, as the text on its button.
pub open spec fn cost_text(required_gold: i64, action_points_cost: i32) -> Seq<char> {
    if required_gold > 0 && action_points_cost > 0 {
        decimal_text(required_gold as int) + " Gold + "@ + decimal_text(action_points_cost as int)
            + " AP"@
    } else if required_gold > 0 {
        decimal_text(required_gold as int) + " Gold"@
    } else if action_points_cost > 0 {
        decimal_text(action_points_cost as int) + " AP"@
    } else {
        "Free"@
    }
}

/// The text that names the cost of an action: its currency and its action
/// points where it costs both, the one that it costs where it costs one, and
/// `Free` where it costs neither.
pub fn action_cost_label(required_gold: i64, action_points_cost: i32) -> (label: String)
    ensures
        label@ == cost_text(required_gold, action_points_cost),
{
    if required_gold > 0 && action_points_cost > 0 {
        let points = decimal(action_points_cost as i64);
        decimal(required_gold).concat(" Gold + ").concat(points.as_str()).concat(" AP")
    } else if required_gold > 0 {
        decimal(required_gold).concat(" Gold")
    } else if action_points_cost > 0 {
        decimal(action_points_cost as i64).concat(" AP")
    } else {
        String::from_str("Free")
    }
}

/// A page of the game.
#[derive(Debug, Clone, Copy, PartialEq, Eq, Structural)]
pub enum Page {
    Home,
    Character,
    Quests,
}

/// The path of a page.
pub open spec fn path_text(page: Page) -> Seq<char> {
    match page {
        Page::Home => "/"@,
        Page::Character => "/character"@,
        Page::Quests => "/quests"@,
    }
}

impl Page {
    /// The path under which the page is served.
    pub fn path(&self) -> (path: String)
        ensures
            path@ == path_text(*self),
    {
        match self {
            Page::Home => String::from_str("/"),
            Page::Character => String::from_str("/character"),
            Page::Quests => String::from_str("/quests"),
        }
    }
}

/// The page that a path leads to. A path that leads to no page leads home.
pub fn current_page(pathname: &str) -> (page: Page)
    ensures
        page == if pathname@ == "/"@ {
            Page::Home
        } else if pathname@ == "/quests"@ {
            Page::Quests
        } else if pathname@ == "/character"@ {
            Page::Character
        } else {
            Page::Home
        },
{
    if same_text(pathname, "/") {
        Page::Home
    } else if same_text(pathname, "/quests") {
        Page::Quests
    } else if same_text(pathname, "/character") {
        Page::Character
    } else {
        Page::Home
    }
}

} // verus!
