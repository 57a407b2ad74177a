//! League configuration: league names and their error values.
//!
//! Loading and saving league files is I/O and lives outside the
//! library; the rules on league names are checked here.

use vstd::prelude::*;

pub mod roster;
pub mod scoring;

verus! {

/// A league of this name already exists.
pub struct LeagueNameConflict(pub String);

impl LeagueNameConflict {
    /// The user-facing description of the conflict.
    pub fn message(&self) -> (r: String)
        ensures
            r@ == "league with name "@ + self.0@ + " already exists, use other name"@,
    {
        let mut r = String::from_str("league with name ");
        r.append(self.0.as_str());
        r.append(" already exists, use other name");
        r
    }
}

/// A league name broke the naming rule.
pub struct InvalidLeagueName;

impl InvalidLeagueName {
    /// The user-facing description of the rule.
    pub fn message(&self) -> (r: String)
        ensures
            r@ == "league name should not start with _"@,
    {
        String::from_str("league name should not start with _")
    }
}

/// True exactly when the name starts with an underscore, which the
/// naming rule forbids.
pub open spec fn name_starts_with_underscore(name: Seq<char>) -> bool {
    name.len() > 0 && name[0] == '_'
}

/// Checks a new league's name: `Err` exactly when it starts with `_`.
pub fn validate_league_name(name: &str) -> (r: Result<(), InvalidLeagueName>)
    ensures
        r is Ok <==> !name_starts_with_underscore(name@),
{
    if name.unicode_len() > 0 && name.get_char(0) == '_' {
        Err(InvalidLeagueName)
    } else {
        Ok(())
    }
}

} // verus!
