//! The weekly-roster record shapes of the earlier file layout, kept
//! for callers that still read them. Reading and writing the files
//! themselves stays outside the library.

use vstd::prelude::*;

verus! {

/// The two roles a weekly-roster entry can have.
#[derive(Clone, Copy, PartialEq, Eq, Structural, Debug)]
pub enum FantasyPlayerRole {
    Batter,
    Pitcher,
}

impl Default for FantasyPlayerRole {
    /// The default role is a batter.
    fn default() -> (r: Self)
        ensures
            r == FantasyPlayerRole::Batter,
    {
        FantasyPlayerRole::Batter
    }
}

/// One weekly-roster entry: a player name, its role and its team.
#[derive(Debug)]
pub struct FantasyPlayer {
    pub player_name: String,
    pub role: FantasyPlayerRole,
    pub team: String,
}

/// A week's roster: its entries in order.
#[derive(Debug)]
pub struct WeeklyRoster {
    pub players: Vec<FantasyPlayer>,
}

} // verus!
