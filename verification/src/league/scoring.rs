//! League scoring rules: per-statistic point weights and the derived
//! output-column lists.
//!
//! Weights are centipoints (hundredths of a fantasy point), capped at
//! `points::MAX_WEIGHT` so weighted sums of `u32` counts never leave
//! `i64`. A statistic with weight 0 is suppressed from every derived
//! column list.

use vstd::prelude::*;

use crate::points::weight_ok;

verus! {

/// Point weights for each batting statistic, in centipoints.
pub struct BatterScoringRule {
    pub at_bats: i64,
    pub runs: i64,
    pub hits: i64,
    pub singles: i64,
    pub doubles: i64,
    pub triples: i64,
    pub home_runs: i64,
    pub runs_batted_in: i64,
    pub sacrifice_hits: i64,
    pub stolen_bases: i64,
    pub caught_stealing: i64,
    pub walks: i64,
    pub intentional_walks: i64,
    pub hit_by_pitch: i64,
    pub strikeouts: i64,
    pub ground_into_double_play: i64,
    pub total_bases: i64,
}

impl BatterScoringRule {
    /// Every weight is within the representable cap.
    pub open spec fn wf(&self) -> bool {
        weight_ok(self.at_bats as int) && weight_ok(self.runs as int) && weight_ok(self.hits as int) && weight_ok(self.singles as int) && weight_ok(self.doubles as int) && weight_ok(self.triples as int) && weight_ok(self.home_runs as int) && weight_ok(self.runs_batted_in as int) && weight_ok(self.sacrifice_hits as int) && weight_ok(self.stolen_bases as int) && weight_ok(self.caught_stealing as int) && weight_ok(self.walks as int) && weight_ok(self.intentional_walks as int) && weight_ok(self.hit_by_pitch as int) && weight_ok(self.strikeouts as int) && weight_ok(self.ground_into_double_play as int) && weight_ok(self.total_bases as int)
    }
}

/// Point weights for each pitching statistic, in centipoints.
pub struct PitcherScoringRule {
    pub innings_pitched: i64,
    pub wins: i64,
    pub losses: i64,
    pub complete_games: i64,
    pub shutouts: i64,
    pub saves: i64,
    pub outs: i64,
    pub hits: i64,
    pub earned_runs: i64,
    pub home_runs: i64,
    pub walks: i64,
    pub intentional_walks: i64,
    pub hit_batters: i64,
    pub strikeouts: i64,
    pub stolen_bases_allowed: i64,
    pub batters_grounded_into_double_plays: i64,
    pub total_bases_allowed: i64,
}

impl PitcherScoringRule {
    /// Every weight is within the representable cap.
    pub open spec fn wf(&self) -> bool {
        weight_ok(self.innings_pitched as int) && weight_ok(self.wins as int) && weight_ok(self.losses as int) && weight_ok(self.complete_games as int) && weight_ok(self.shutouts as int) && weight_ok(self.saves as int) && weight_ok(self.outs as int) && weight_ok(self.hits as int) && weight_ok(self.earned_runs as int) && weight_ok(self.home_runs as int) && weight_ok(self.walks as int) && weight_ok(self.intentional_walks as int) && weight_ok(self.hit_batters as int) && weight_ok(self.strikeouts as int) && weight_ok(self.stolen_bases_allowed as int) && weight_ok(self.batters_grounded_into_double_plays as int) && weight_ok(self.total_bases_allowed as int)
    }
}

/// A league's scoring rule: one weight table per role.
pub struct ScoringRule {
    pub batter: BatterScoringRule,
    pub pitcher: PitcherScoringRule,
}

impl ScoringRule {
    /// Every weight of both tables is within the representable cap.
    pub open spec fn wf(&self) -> bool {
        self.batter.wf() && self.pitcher.wf()
    }
}

/// A single optional column: present exactly when its weight is non-zero.
pub open spec fn opt_col(present: bool, name: Seq<char>) -> Seq<Seq<char>> {
    if present {
        seq![name]
    } else {
        Seq::empty()
    }
}

/// The four columns every header starts with.
pub open spec fn common_header() -> Seq<Seq<char>> {
    seq!["Player"@, "Team"@, "FanPts"@, "Pos"@]
}

/// The batting columns with non-zero weight, in canonical order.
pub open spec fn batter_columns(b: &BatterScoringRule) -> Seq<Seq<char>> {
    batter_columns_a(b) + batter_columns_b(b) + batter_columns_c(b) + batter_columns_d(b)
}

/// The pitching columns with non-zero weight, in canonical order.
pub open spec fn pitcher_columns(p: &PitcherScoringRule) -> Seq<Seq<char>> {
    pitcher_columns_a(p) + pitcher_columns_b(p) + pitcher_columns_c(p) + pitcher_columns_d(p)
}

/// The full header: common columns, then batting, then pitching columns.
pub open spec fn header_items_spec(s: &ScoringRule) -> Seq<Seq<char>> {
    common_header() + batter_columns(&s.batter) + pitcher_columns(&s.pitcher)
}

/// The header restricted to batters: common columns and batting columns.
pub open spec fn header_items_for_batter_spec(s: &ScoringRule) -> Seq<Seq<char>> {
    common_header() + batter_columns(&s.batter)
}

/// The header restricted to pitchers: common columns and pitching columns.
pub open spec fn header_items_for_pitcher_spec(s: &ScoringRule) -> Seq<Seq<char>> {
    common_header() + pitcher_columns(&s.pitcher)
}

/// Appends `name` when `present` holds, leaving the list alone otherwise.
fn push_col(items: &mut Vec<String>, present: bool, name: &'static str)
    ensures
        final(items).deep_view() == old(items).deep_view() + opt_col(present, name@),
{
    if present {
        items.push(String::from_str(name));
    }
    proof {
        assert(items.deep_view() =~~= old(items).deep_view() + opt_col(present, name@));
    }
}

/// Appends the four common columns.
fn push_common(items: &mut Vec<String>)
    ensures
        final(items).deep_view() == old(items).deep_view() + common_header(),
{
    items.push(String::from_str("Player"));
    items.push(String::from_str("Team"));
    items.push(String::from_str("FanPts"));
    items.push(String::from_str("Pos"));
    proof {
        assert(items.deep_view() =~~= old(items).deep_view() + common_header());
    }
}

/// A fixed slice of the batter column list, kept opaque so column
/// concatenations stay cheap to reason about.
#[verifier::opaque]
pub open spec fn batter_columns_a(b: &BatterScoringRule) -> Seq<Seq<char>> {
    opt_col(b.at_bats != 0, "B.AB"@) + opt_col(b.runs != 0, "B.R"@) + opt_col(b.hits != 0, "B.H"@) + opt_col(b.singles != 0, "B.1B"@) + opt_col(b.doubles != 0, "B.2B"@)
}

fn push_batter_cols_a(items: &mut Vec<String>, b: &BatterScoringRule)
    ensures
        final(items).deep_view() == old(items).deep_view() + batter_columns_a(b),
{
    push_col(items, b.at_bats != 0, "B.AB");
    proof {
        reveal(batter_columns_a);
        assert(items.deep_view() =~~= old(items).deep_view() + (opt_col(b.at_bats != 0, "B.AB"@)));
    }
    push_col(items, b.runs != 0, "B.R");
    proof {
        reveal(batter_columns_a);
        assert(items.deep_view() =~~= old(items).deep_view() + (opt_col(b.at_bats != 0, "B.AB"@) + opt_col(b.runs != 0, "B.R"@)));
    }
    push_col(items, b.hits != 0, "B.H");
    proof {
        reveal(batter_columns_a);
        assert(items.deep_view() =~~= old(items).deep_view() + (opt_col(b.at_bats != 0, "B.AB"@) + opt_col(b.runs != 0, "B.R"@) + opt_col(b.hits != 0, "B.H"@)));
    }
    push_col(items, b.singles != 0, "B.1B");
    proof {
        reveal(batter_columns_a);
        assert(items.deep_view() =~~= old(items).deep_view() + (opt_col(b.at_bats != 0, "B.AB"@) + opt_col(b.runs != 0, "B.R"@) + opt_col(b.hits != 0, "B.H"@) + opt_col(b.singles != 0, "B.1B"@)));
    }
    push_col(items, b.doubles != 0, "B.2B");
    proof {
        reveal(batter_columns_a);
        assert(items.deep_view() =~~= old(items).deep_view() + (opt_col(b.at_bats != 0, "B.AB"@) + opt_col(b.runs != 0, "B.R"@) + opt_col(b.hits != 0, "B.H"@) + opt_col(b.singles != 0, "B.1B"@) + opt_col(b.doubles != 0, "B.2B"@)));
    }
    proof {
        reveal(batter_columns_a);
        assert(items.deep_view() =~~= old(items).deep_view() + batter_columns_a(b));
    }
}

/// A fixed slice of the batter column list, kept opaque so column
/// concatenations stay cheap to reason about.
#[verifier::opaque]
pub open spec fn batter_columns_b(b: &BatterScoringRule) -> Seq<Seq<char>> {
    opt_col(b.triples != 0, "B.3B"@) + opt_col(b.home_runs != 0, "B.HR"@) + opt_col(b.runs_batted_in != 0, "B.RBI"@) + opt_col(b.sacrifice_hits != 0, "B.SAC"@)
}

fn push_batter_cols_b(items: &mut Vec<String>, b: &BatterScoringRule)
    ensures
        final(items).deep_view() == old(items).deep_view() + batter_columns_b(b),
{
    push_col(items, b.triples != 0, "B.3B");
    proof {
        reveal(batter_columns_b);
        assert(items.deep_view() =~~= old(items).deep_view() + (opt_col(b.triples != 0, "B.3B"@)));
    }
    push_col(items, b.home_runs != 0, "B.HR");
    proof {
        reveal(batter_columns_b);
        assert(items.deep_view() =~~= old(items).deep_view() + (opt_col(b.triples != 0, "B.3B"@) + opt_col(b.home_runs != 0, "B.HR"@)));
    }
    push_col(items, b.runs_batted_in != 0, "B.RBI");
    proof {
        reveal(batter_columns_b);
        assert(items.deep_view() =~~= old(items).deep_view() + (opt_col(b.triples != 0, "B.3B"@) + opt_col(b.home_runs != 0, "B.HR"@) + opt_col(b.runs_batted_in != 0, "B.RBI"@)));
    }
    push_col(items, b.sacrifice_hits != 0, "B.SAC");
    proof {
        reveal(batter_columns_b);
        assert(items.deep_view() =~~= old(items).deep_view() + (opt_col(b.triples != 0, "B.3B"@) + opt_col(b.home_runs != 0, "B.HR"@) + opt_col(b.runs_batted_in != 0, "B.RBI"@) + opt_col(b.sacrifice_hits != 0, "B.SAC"@)));
    }
    proof {
        reveal(batter_columns_b);
        assert(items.deep_view() =~~= old(items).deep_view() + batter_columns_b(b));
    }
}

/// A fixed slice of the batter column list, kept opaque so column
/// concatenations stay cheap to reason about.
#[verifier::opaque]
pub open spec fn batter_columns_c(b: &BatterScoringRule) -> Seq<Seq<char>> {
    opt_col(b.stolen_bases != 0, "B.SB"@) + opt_col(b.caught_stealing != 0, "B.CS"@) + opt_col(b.walks != 0, "B.BB"@) + opt_col(b.intentional_walks != 0, "B.IBB"@)
}

fn push_batter_cols_c(items: &mut Vec<String>, b: &BatterScoringRule)
    ensures
        final(items).deep_view() == old(items).deep_view() + batter_columns_c(b),
{
    push_col(items, b.stolen_bases != 0, "B.SB");
    proof {
        reveal(batter_columns_c);
        assert(items.deep_view() =~~= old(items).deep_view() + (opt_col(b.stolen_bases != 0, "B.SB"@)));
    }
    push_col(items, b.caught_stealing != 0, "B.CS");
    proof {
        reveal(batter_columns_c);
        assert(items.deep_view() =~~= old(items).deep_view() + (opt_col(b.stolen_bases != 0, "B.SB"@) + opt_col(b.caught_stealing != 0, "B.CS"@)));
    }
    push_col(items, b.walks != 0, "B.BB");
    proof {
        reveal(batter_columns_c);
        assert(items.deep_view() =~~= old(items).deep_view() + (opt_col(b.stolen_bases != 0, "B.SB"@) + opt_col(b.caught_stealing != 0, "B.CS"@) + opt_col(b.walks != 0, "B.BB"@)));
    }
    push_col(items, b.intentional_walks != 0, "B.IBB");
    proof {
        reveal(batter_columns_c);
        assert(items.deep_view() =~~= old(items).deep_view() + (opt_col(b.stolen_bases != 0, "B.SB"@) + opt_col(b.caught_stealing != 0, "B.CS"@) + opt_col(b.walks != 0, "B.BB"@) + opt_col(b.intentional_walks != 0, "B.IBB"@)));
    }
    proof {
        reveal(batter_columns_c);
        assert(items.deep_view() =~~= old(items).deep_view() + batter_columns_c(b));
    }
}

/// A fixed slice of the batter column list, kept opaque so column
/// concatenations stay cheap to reason about.
#[verifier::opaque]
pub open spec fn batter_columns_d(b: &BatterScoringRule) -> Seq<Seq<char>> {
    opt_col(b.hit_by_pitch != 0, "B.HBP"@) + opt_col(b.strikeouts != 0, "B.K"@) + opt_col(b.ground_into_double_play != 0, "B.GIDP"@) + opt_col(b.total_bases != 0, "B.TB"@)
}

fn push_batter_cols_d(items: &mut Vec<String>, b: &BatterScoringRule)
    ensures
        final(items).deep_view() == old(items).deep_view() + batter_columns_d(b),
{
    push_col(items, b.hit_by_pitch != 0, "B.HBP");
    proof {
        reveal(batter_columns_d);
        assert(items.deep_view() =~~= old(items).deep_view() + (opt_col(b.hit_by_pitch != 0, "B.HBP"@)));
    }
    push_col(items, b.strikeouts != 0, "B.K");
    proof {
        reveal(batter_columns_d);
        assert(items.deep_view() =~~= old(items).deep_view() + (opt_col(b.hit_by_pitch != 0, "B.HBP"@) + opt_col(b.strikeouts != 0, "B.K"@)));
    }
    push_col(items, b.ground_into_double_play != 0, "B.GIDP");
    proof {
        reveal(batter_columns_d);
        assert(items.deep_view() =~~= old(items).deep_view() + (opt_col(b.hit_by_pitch != 0, "B.HBP"@) + opt_col(b.strikeouts != 0, "B.K"@) + opt_col(b.ground_into_double_play != 0, "B.GIDP"@)));
    }
    push_col(items, b.total_bases != 0, "B.TB");
    proof {
        reveal(batter_columns_d);
        assert(items.deep_view() =~~= old(items).deep_view() + (opt_col(b.hit_by_pitch != 0, "B.HBP"@) + opt_col(b.strikeouts != 0, "B.K"@) + opt_col(b.ground_into_double_play != 0, "B.GIDP"@) + opt_col(b.total_bases != 0, "B.TB"@)));
    }
    proof {
        reveal(batter_columns_d);
        assert(items.deep_view() =~~= old(items).deep_view() + batter_columns_d(b));
    }
}

/// A fixed slice of the pitcher column list, kept opaque so column
/// concatenations stay cheap to reason about.
#[verifier::opaque]
pub open spec fn pitcher_columns_a(p: &PitcherScoringRule) -> Seq<Seq<char>> {
    opt_col(p.innings_pitched != 0, "P.IP"@) + opt_col(p.wins != 0, "P.W"@) + opt_col(p.losses != 0, "P.L"@) + opt_col(p.complete_games != 0, "P.CG"@) + opt_col(p.shutouts != 0, "P.SHO"@)
}

fn push_pitcher_cols_a(items: &mut Vec<String>, p: &PitcherScoringRule)
    ensures
        final(items).deep_view() == old(items).deep_view() + pitcher_columns_a(p),
{
    push_col(items, p.innings_pitched != 0, "P.IP");
    proof {
        reveal(pitcher_columns_a);
        assert(items.deep_view() =~~= old(items).deep_view() + (opt_col(p.innings_pitched != 0, "P.IP"@)));
    }
    push_col(items, p.wins != 0, "P.W");
    proof {
        reveal(pitcher_columns_a);
        assert(items.deep_view() =~~= old(items).deep_view() + (opt_col(p.innings_pitched != 0, "P.IP"@) + opt_col(p.wins != 0, "P.W"@)));
    }
    push_col(items, p.losses != 0, "P.L");
    proof {
        reveal(pitcher_columns_a);
        assert(items.deep_view() =~~= old(items).deep_view() + (opt_col(p.innings_pitched != 0, "P.IP"@) + opt_col(p.wins != 0, "P.W"@) + opt_col(p.losses != 0, "P.L"@)));
    }
    push_col(items, p.complete_games != 0, "P.CG");
    proof {
        reveal(pitcher_columns_a);
        assert(items.deep_view() =~~= old(items).deep_view() + (opt_col(p.innings_pitched != 0, "P.IP"@) + opt_col(p.wins != 0, "P.W"@) + opt_col(p.losses != 0, "P.L"@) + opt_col(p.complete_games != 0, "P.CG"@)));
    }
    push_col(items, p.shutouts != 0, "P.SHO");
    proof {
        reveal(pitcher_columns_a);
        assert(items.deep_view() =~~= old(items).deep_view() + (opt_col(p.innings_pitched != 0, "P.IP"@) + opt_col(p.wins != 0, "P.W"@) + opt_col(p.losses != 0, "P.L"@) + opt_col(p.complete_games != 0, "P.CG"@) + opt_col(p.shutouts != 0, "P.SHO"@)));
    }
    proof {
        reveal(pitcher_columns_a);
        assert(items.deep_view() =~~= old(items).deep_view() + pitcher_columns_a(p));
    }
}

/// A fixed slice of the pitcher column list, kept opaque so column
/// concatenations stay cheap to reason about.
#[verifier::opaque]
pub open spec fn pitcher_columns_b(p: &PitcherScoringRule) -> Seq<Seq<char>> {
    opt_col(p.saves != 0, "P.SV"@) + opt_col(p.outs != 0, "P.OUT"@) + opt_col(p.hits != 0, "P.H"@) + opt_col(p.earned_runs != 0, "P.ER"@)
}

fn push_pitcher_cols_b(items: &mut Vec<String>, p: &PitcherScoringRule)
    ensures
        final(items).deep_view() == old(items).deep_view() + pitcher_columns_b(p),
{
    push_col(items, p.saves != 0, "P.SV");
    proof {
        reveal(pitcher_columns_b);
        assert(items.deep_view() =~~= old(items).deep_view() + (opt_col(p.saves != 0, "P.SV"@)));
    }
    push_col(items, p.outs != 0, "P.OUT");
    proof {
        reveal(pitcher_columns_b);
        assert(items.deep_view() =~~= old(items).deep_view() + (opt_col(p.saves != 0, "P.SV"@) + opt_col(p.outs != 0, "P.OUT"@)));
    }
    push_col(items, p.hits != 0, "P.H");
    proof {
        reveal(pitcher_columns_b);
        assert(items.deep_view() =~~= old(items).deep_view() + (opt_col(p.saves != 0, "P.SV"@) + opt_col(p.outs != 0, "P.OUT"@) + opt_col(p.hits != 0, "P.H"@)));
    }
    push_col(items, p.earned_runs != 0, "P.ER");
    proof {
        reveal(pitcher_columns_b);
        assert(items.deep_view() =~~= old(items).deep_view() + (opt_col(p.saves != 0, "P.SV"@) + opt_col(p.outs != 0, "P.OUT"@) + opt_col(p.hits != 0, "P.H"@) + opt_col(p.earned_runs != 0, "P.ER"@)));
    }
    proof {
        reveal(pitcher_columns_b);
        assert(items.deep_view() =~~= old(items).deep_view() + pitcher_columns_b(p));
    }
}

/// A fixed slice of the pitcher column list, kept opaque so column
/// concatenations stay cheap to reason about.
#[verifier::opaque]
pub open spec fn pitcher_columns_c(p: &PitcherScoringRule) -> Seq<Seq<char>> {
    opt_col(p.home_runs != 0, "P.HR"@) + opt_col(p.walks != 0, "P.BB"@) + opt_col(p.intentional_walks != 0, "P.IBB"@) + opt_col(p.hit_batters != 0, "P.HBP"@)
}

fn push_pitcher_cols_c(items: &mut Vec<String>, p: &PitcherScoringRule)
    ensures
        final(items).deep_view() == old(items).deep_view() + pitcher_columns_c(p),
{
    push_col(items, p.home_runs != 0, "P.HR");
    proof {
        reveal(pitcher_columns_c);
        assert(items.deep_view() =~~= old(items).deep_view() + (opt_col(p.home_runs != 0, "P.HR"@)));
    }
    push_col(items, p.walks != 0, "P.BB");
    proof {
        reveal(pitcher_columns_c);
        assert(items.deep_view() =~~= old(items).deep_view() + (opt_col(p.home_runs != 0, "P.HR"@) + opt_col(p.walks != 0, "P.BB"@)));
    }
    push_col(items, p.intentional_walks != 0, "P.IBB");
    proof {
        reveal(pitcher_columns_c);
        assert(items.deep_view() =~~= old(items).deep_view() + (opt_col(p.home_runs != 0, "P.HR"@) + opt_col(p.walks != 0, "P.BB"@) + opt_col(p.intentional_walks != 0, "P.IBB"@)));
    }
    push_col(items, p.hit_batters != 0, "P.HBP");
    proof {
        reveal(pitcher_columns_c);
        assert(items.deep_view() =~~= old(items).deep_view() + (opt_col(p.home_runs != 0, "P.HR"@) + opt_col(p.walks != 0, "P.BB"@) + opt_col(p.intentional_walks != 0, "P.IBB"@) + opt_col(p.hit_batters != 0, "P.HBP"@)));
    }
    proof {
        reveal(pitcher_columns_c);
        assert(items.deep_view() =~~= old(items).deep_view() + pitcher_columns_c(p));
    }
}

/// A fixed slice of the pitcher column list, kept opaque so column
/// concatenations stay cheap to reason about.
#[verifier::opaque]
pub open spec fn pitcher_columns_d(p: &PitcherScoringRule) -> Seq<Seq<char>> {
    opt_col(p.strikeouts != 0, "P.K"@) + opt_col(p.stolen_bases_allowed != 0, "P.SB"@) + opt_col(p.batters_grounded_into_double_plays != 0, "P.GIDP"@) + opt_col(p.total_bases_allowed != 0, "P.TB"@)
}

fn push_pitcher_cols_d(items: &mut Vec<String>, p: &PitcherScoringRule)
    ensures
        final(items).deep_view() == old(items).deep_view() + pitcher_columns_d(p),
{
    push_col(items, p.strikeouts != 0, "P.K");
    proof {
        reveal(pitcher_columns_d);
        assert(items.deep_view() =~~= old(items).deep_view() + (opt_col(p.strikeouts != 0, "P.K"@)));
    }
    push_col(items, p.stolen_bases_allowed != 0, "P.SB");
    proof {
        reveal(pitcher_columns_d);
        assert(items.deep_view() =~~= old(items).deep_view() + (opt_col(p.strikeouts != 0, "P.K"@) + opt_col(p.stolen_bases_allowed != 0, "P.SB"@)));
    }
    push_col(items, p.batters_grounded_into_double_plays != 0, "P.GIDP");
    proof {
        reveal(pitcher_columns_d);
        assert(items.deep_view() =~~= old(items).deep_view() + (opt_col(p.strikeouts != 0, "P.K"@) + opt_col(p.stolen_bases_allowed != 0, "P.SB"@) + opt_col(p.batters_grounded_into_double_plays != 0, "P.GIDP"@)));
    }
    push_col(items, p.total_bases_allowed != 0, "P.TB");
    proof {
        reveal(pitcher_columns_d);
        assert(items.deep_view() =~~= old(items).deep_view() + (opt_col(p.strikeouts != 0, "P.K"@) + opt_col(p.stolen_bases_allowed != 0, "P.SB"@) + opt_col(p.batters_grounded_into_double_plays != 0, "P.GIDP"@) + opt_col(p.total_bases_allowed != 0, "P.TB"@)));
    }
    proof {
        reveal(pitcher_columns_d);
        assert(items.deep_view() =~~= old(items).deep_view() + pitcher_columns_d(p));
    }
}

/// Appends every batter column whose weight is non-zero.
fn push_batter_cols(items: &mut Vec<String>, b: &BatterScoringRule)
    ensures
        final(items).deep_view() == old(items).deep_view() + batter_columns(b),
{
    push_batter_cols_a(items, b);
    push_batter_cols_b(items, b);
    push_batter_cols_c(items, b);
    push_batter_cols_d(items, b);
    proof {
        assert(items.deep_view() =~~= old(items).deep_view() + batter_columns(b));
    }
}

/// Appends every pitcher column whose weight is non-zero.
fn push_pitcher_cols(items: &mut Vec<String>, p: &PitcherScoringRule)
    ensures
        final(items).deep_view() == old(items).deep_view() + pitcher_columns(p),
{
    push_pitcher_cols_a(items, p);
    push_pitcher_cols_b(items, p);
    push_pitcher_cols_c(items, p);
    push_pitcher_cols_d(items, p);
    proof {
        assert(items.deep_view() =~~= old(items).deep_view() + pitcher_columns(p));
    }
}

impl ScoringRule {
    /// The output-column names: the four common columns, then one
    /// abbreviated code per non-zero-weighted statistic, batting codes
    /// first, in a fixed canonical order. Recomputed fresh from the
    /// current weights on every call.
    pub fn get_header_items(&self) -> (items: Vec<String>)
        ensures
            items.deep_view() == header_items_spec(self),
    {
        let mut items: Vec<String> = Vec::new();
        push_common(&mut items);
        push_batter_cols(&mut items, &self.batter);
        push_pitcher_cols(&mut items, &self.pitcher);
        proof {
            assert(items.deep_view() =~~= header_items_spec(self));
        }
        items
    }

    /// The header filtered for batters: the four common columns and the
    /// non-zero batting columns.
    pub fn get_header_items_for_batter(&self) -> (items: Vec<String>)
        ensures
            items.deep_view() == header_items_for_batter_spec(self),
    {
        let mut items: Vec<String> = Vec::new();
        push_common(&mut items);
        push_batter_cols(&mut items, &self.batter);
        proof {
            assert(items.deep_view() =~~= header_items_for_batter_spec(self));
        }
        items
    }

    /// The header filtered for pitchers: the four common columns and the
    /// non-zero pitching columns.
    pub fn get_header_items_for_pitcher(&self) -> (items: Vec<String>)
        ensures
            items.deep_view() == header_items_for_pitcher_spec(self),
    {
        let mut items: Vec<String> = Vec::new();
        push_common(&mut items);
        push_pitcher_cols(&mut items, &self.pitcher);
        proof {
            assert(items.deep_view() =~~= header_items_for_pitcher_spec(self));
        }
        items
    }
}

/// The role-filtered headers carve the full header in two: both start
/// with the four common columns, and the full header is the batter
/// header followed by the pitcher header's role-specific tail.
pub proof fn lemma_header_role_split(s: &ScoringRule)
    ensures
        header_items_for_batter_spec(s).take(4) == common_header(),
        header_items_for_pitcher_spec(s).take(4) == common_header(),
        header_items_for_batter_spec(s) + header_items_for_pitcher_spec(s).skip(4)
            == header_items_spec(s),
{
    assert(header_items_for_batter_spec(s).take(4) =~= common_header());
    assert(header_items_for_pitcher_spec(s).take(4) =~= common_header());
    assert(header_items_for_pitcher_spec(s).skip(4) =~= pitcher_columns(&s.pitcher));
    assert(header_items_for_batter_spec(s) + header_items_for_pitcher_spec(s).skip(4)
        =~= header_items_spec(s));
}

/// The fixed sample scoring rule in spec form, centipoint weights.
pub open spec fn sample_scoring_rule_spec() -> ScoringRule {
    ScoringRule {
        batter:
        BatterScoringRule {
            at_bats: 0,
            runs: 200,
            hits: 50,
            singles: 0,
            doubles: 0,
            triples: 0,
            home_runs: 400,
            runs_batted_in: 200,
            sacrifice_hits: 0,
            stolen_bases: 200,
            caught_stealing: 0,
            walks: 0,
            intentional_walks: 0,
            hit_by_pitch: 0,
            strikeouts: 0,
            ground_into_double_play: 0,
            total_bases: 0,
        },
        pitcher:
        PitcherScoringRule {
            innings_pitched: 100,
            wins: 500,
            losses: 0,
            complete_games: 0,
            shutouts: 0,
            saves: 500,
            outs: 0,
            hits: 0,
            earned_runs: -50i64,
            home_runs: 0,
            walks: 0,
            intentional_walks: 0,
            hit_batters: 0,
            strikeouts: 200,
            stolen_bases_allowed: 0,
            batters_grounded_into_double_plays: 0,
            total_bases_allowed: 0,
        },
    }
}

/// The built-in sample league's scoring rule: two points a run, half a
/// point a hit, four a home run, two a run batted in or a stolen base;
/// a point per inning pitched, five a win or a save, minus half a point
/// an earned run, two a strikeout.
pub fn sample_scoring_rule() -> (r: ScoringRule)
    ensures
        r == sample_scoring_rule_spec(),
        r.wf(),
{
    ScoringRule {
        batter:
        BatterScoringRule {
            at_bats: 0,
            runs: 200,
            hits: 50,
            singles: 0,
            doubles: 0,
            triples: 0,
            home_runs: 400,
            runs_batted_in: 200,
            sacrifice_hits: 0,
            stolen_bases: 200,
            caught_stealing: 0,
            walks: 0,
            intentional_walks: 0,
            hit_by_pitch: 0,
            strikeouts: 0,
            ground_into_double_play: 0,
            total_bases: 0,
        },
        pitcher:
        PitcherScoringRule {
            innings_pitched: 100,
            wins: 500,
            losses: 0,
            complete_games: 0,
            shutouts: 0,
            saves: 500,
            outs: 0,
            hits: 0,
            earned_runs: -50i64,
            home_runs: 0,
            walks: 0,
            intentional_walks: 0,
            hit_batters: 0,
            strikeouts: 200,
            stolen_bases_allowed: 0,
            batters_grounded_into_double_plays: 0,
            total_bases_allowed: 0,
        },
    }
}

/// Validates a weight against the representable cap, so unverified
/// callers can establish `wf` before building a rule.
pub fn weight_in_range(w: i64) -> (r: bool)
    ensures
        r == weight_ok(w as int),
{
    -crate::points::MAX_WEIGHT <= w && w <= crate::points::MAX_WEIGHT
}

impl ScoringRule {
    /// Runtime check of `wf`, for callers outside the proofs: true
    /// exactly when every weight is within the representable cap.
    pub fn is_valid(&self) -> (r: bool)
        ensures
            r == self.wf(),
    {
        weight_in_range(self.batter.at_bats) && weight_in_range(self.batter.runs) && weight_in_range(self.batter.hits) && weight_in_range(self.batter.singles) && weight_in_range(self.batter.doubles) && weight_in_range(self.batter.triples) && weight_in_range(self.batter.home_runs) && weight_in_range(self.batter.runs_batted_in) && weight_in_range(self.batter.sacrifice_hits) && weight_in_range(self.batter.stolen_bases) && weight_in_range(self.batter.caught_stealing) && weight_in_range(self.batter.walks) && weight_in_range(self.batter.intentional_walks) && weight_in_range(self.batter.hit_by_pitch) && weight_in_range(self.batter.strikeouts) && weight_in_range(self.batter.ground_into_double_play) && weight_in_range(self.batter.total_bases) && weight_in_range(self.pitcher.innings_pitched) && weight_in_range(self.pitcher.wins) && weight_in_range(self.pitcher.losses) && weight_in_range(self.pitcher.complete_games) && weight_in_range(self.pitcher.shutouts) && weight_in_range(self.pitcher.saves) && weight_in_range(self.pitcher.outs) && weight_in_range(self.pitcher.hits) && weight_in_range(self.pitcher.earned_runs) && weight_in_range(self.pitcher.home_runs) && weight_in_range(self.pitcher.walks) && weight_in_range(self.pitcher.intentional_walks) && weight_in_range(self.pitcher.hit_batters) && weight_in_range(self.pitcher.strikeouts) && weight_in_range(self.pitcher.stolen_bases_allowed) && weight_in_range(self.pitcher.batters_grounded_into_double_plays) && weight_in_range(self.pitcher.total_bases_allowed)
    }
}

} // verus!
