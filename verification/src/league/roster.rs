//! League rosters: which named players belong to which fantasy team.

use vstd::prelude::*;

verus! {

/// The two player archetypes a roster entry can have.
#[derive(Clone, Copy, PartialEq, Eq, Structural, Debug)]
pub enum PlayerType {
    Batter,
    Pitcher,
}

impl Default for PlayerType {
    /// The default archetype is a batter.
    fn default() -> (r: Self)
        ensures
            r == PlayerType::Batter,
    {
        PlayerType::Batter
    }
}

/// One roster entry: a player name, the role it is rostered for, and
/// the fantasy team that owns it. A name may appear once per role.
pub struct Player {
    pub name: String,
    pub role: PlayerType,
    pub team: String,
}

/// A roster entry has exactly these fields.
pub open spec fn entry_is(p: &Player, name: Seq<char>, role: PlayerType, team: Seq<char>) -> bool {
    p.name@ == name && p.role == role && p.team@ == team
}

/// The ordered list of roster entries of one league.
pub struct Roster {
    pub players: Vec<Player>,
}

/// Builds a batter entry.
pub fn new_batter(name: &str, team: &str) -> (p: Player)
    ensures
        entry_is(&p, name@, PlayerType::Batter, team@),
{
    Player { name: name.to_owned(), role: PlayerType::Batter, team: team.to_owned() }
}

/// Builds a pitcher entry.
pub fn new_pitcher(name: &str, team: &str) -> (p: Player)
    ensures
        entry_is(&p, name@, PlayerType::Pitcher, team@),
{
    Player { name: name.to_owned(), role: PlayerType::Pitcher, team: team.to_owned() }
}

/// The built-in sample league's roster: four teams of two batters and
/// two pitchers each.
pub fn sample_roster() -> (r: Roster)
    ensures
        r.players@.len() == 16,
        entry_is(&r.players@[0], "Cody Bellinger"@, PlayerType::Batter, "LA Bulls"@),
        entry_is(&r.players@[1], "Domingo Santana"@, PlayerType::Batter, "LA Bulls"@),
        entry_is(&r.players@[2], "Blake Snell"@, PlayerType::Pitcher, "LA Bulls"@),
        entry_is(&r.players@[3], "Max Scherzer"@, PlayerType::Pitcher, "LA Bulls"@),
        entry_is(&r.players@[4], "Christian Yelich"@, PlayerType::Batter, "Chicago Pizzas"@),
        entry_is(&r.players@[5], "Tim Beckham"@, PlayerType::Batter, "Chicago Pizzas"@),
        entry_is(&r.players@[6], "Jacob deGrom"@, PlayerType::Pitcher, "Chicago Pizzas"@),
        entry_is(&r.players@[7], "Carlos Rodón"@, PlayerType::Pitcher, "Chicago Pizzas"@),
        entry_is(&r.players@[8], "Trey Mancini"@, PlayerType::Batter, "NY Hotdogs"@),
        entry_is(&r.players@[9], "Anthony Rendon"@, PlayerType::Batter, "NY Hotdogs"@),
        entry_is(&r.players@[10], "José Berríos"@, PlayerType::Pitcher, "NY Hotdogs"@),
        entry_is(&r.players@[11], "Mike Clevinger"@, PlayerType::Pitcher, "NY Hotdogs"@),
        entry_is(&r.players@[12], "Jonathan Villar"@, PlayerType::Batter, "Seattle Coffees"@),
        entry_is(&r.players@[13], "Rhys Hoskins"@, PlayerType::Batter, "Seattle Coffees"@),
        entry_is(&r.players@[14], "Kirby Yates"@, PlayerType::Pitcher, "Seattle Coffees"@),
        entry_is(&r.players@[15], "Josh Hader"@, PlayerType::Pitcher, "Seattle Coffees"@),
{
    let mut players: Vec<Player> = Vec::new();
    players.push(new_batter("Cody Bellinger", "LA Bulls"));
    players.push(new_batter("Domingo Santana", "LA Bulls"));
    players.push(new_pitcher("Blake Snell", "LA Bulls"));
    players.push(new_pitcher("Max Scherzer", "LA Bulls"));
    players.push(new_batter("Christian Yelich", "Chicago Pizzas"));
    players.push(new_batter("Tim Beckham", "Chicago Pizzas"));
    players.push(new_pitcher("Jacob deGrom", "Chicago Pizzas"));
    players.push(new_pitcher("Carlos Rodón", "Chicago Pizzas"));
    players.push(new_batter("Trey Mancini", "NY Hotdogs"));
    players.push(new_batter("Anthony Rendon", "NY Hotdogs"));
    players.push(new_pitcher("José Berríos", "NY Hotdogs"));
    players.push(new_pitcher("Mike Clevinger", "NY Hotdogs"));
    players.push(new_batter("Jonathan Villar", "Seattle Coffees"));
    players.push(new_batter("Rhys Hoskins", "Seattle Coffees"));
    players.push(new_pitcher("Kirby Yates", "Seattle Coffees"));
    players.push(new_pitcher("Josh Hader", "Seattle Coffees"));
    Roster { players }
}

/// The mathematical shape of a roster entry.
pub ghost struct RosterEntryView {
    pub name: Seq<char>,
    pub role: PlayerType,
    pub team: Seq<char>,
}

impl View for Player {
    type V = RosterEntryView;

    open spec fn view(&self) -> RosterEntryView {
        RosterEntryView { name: self.name@, role: self.role, team: self.team@ }
    }
}

impl DeepView for Player {
    type V = RosterEntryView;

    open spec fn deep_view(&self) -> RosterEntryView {
        self.view()
    }
}

impl View for Roster {
    type V = Seq<RosterEntryView>;

    open spec fn view(&self) -> Seq<RosterEntryView> {
        self.players.deep_view()
    }
}

} // verus!
