//! Report preparation: the header line, one row per scored record,
//! per-team totals, top-N splits and outstanding-performance scans.
//! All strings are built with exact fixed-point rendering; printing
//! itself stays outside the library.

use vstd::prelude::*;

use crate::stats::{FantasyPlayer, FantasyPlayerView, InningsPitched, is_pitcher_pos};
use crate::points::clip_add;
use crate::text::{
    contains_sub, dec_str, fit_len, join_sep, join_with, pad_left, pad_left_spec, pad_right,
    pad_right_spec, spaces, str_contains, str_eq, truncate_bytes, two_digit_str,
    two_digit_string, u32_to_string, u64_to_string,
};

verus! {

/// The nearest centipoint to `units / 3`: thirds round to the nearest
/// hundredth of a point, never landing on a half.
pub open spec fn fanpts_centi(units: int) -> int {
    if units >= 0 {
        units / 3 + if units % 3 == 2 {
            1int
        } else {
            0int
        }
    } else {
        -((-units) / 3 + if (-units) % 3 == 2 {
            1int
        } else {
            0int
        })
    }
}

/// A point total rendered with two decimals, as the reports show it.
pub open spec fn fanpts_str(units: int) -> Seq<char> {
    let c = fanpts_centi(units);
    if c < 0 {
        seq!['-'] + dec_str((-c) / 100) + seq!['.'] + two_digit_str((-c) % 100)
    } else {
        dec_str(c / 100) + seq!['.'] + two_digit_str(c % 100)
    }
}

/// Renders a point total with two decimals.
pub fn fanpts_string(units: i64) -> (r: String)
    ensures
        r@ == fanpts_str(units as int),
{
    let m: u64 = if units < 0 {
        (-(units as i128)) as u64
    } else {
        units as u64
    };
    let q: u64 = m / 3;
    let c: u64 = if m % 3 == 2 {
        q + 1
    } else {
        q
    };
    let mut r = String::new();
    if units < 0 && c > 0 {
        proof {
            reveal_strlit("-");
        }
        r.append("-");
        proof {
            assert("-"@ =~= seq!['-']);
        }
    }
    r.append(u64_to_string(c / 100).as_str());
    proof {
        reveal_strlit(".");
    }
    r.append(".");
    proof {
        assert("."@ =~= seq!['.']);
    }
    r.append(two_digit_string(c % 100).as_str());
    proof {
        assert(r@ =~= fanpts_str(units as int));
    }
    r
}

/// Innings pitched as the reports show them: whole innings, then the
/// fractional thirds after a dot only when there are any.
pub open spec fn ip_str(ip: InningsPitched) -> Seq<char> {
    if ip.thirds == 0 {
        dec_str(ip.whole as int)
    } else {
        dec_str(ip.whole as int) + seq!['.'] + dec_str(ip.thirds as int)
    }
}

/// Renders an innings-pitched value.
pub fn ip_string(ip: InningsPitched) -> (r: String)
    ensures
        r@ == ip_str(ip),
{
    let mut r = u32_to_string(ip.whole);
    if ip.thirds > 0 {
        proof {
            reveal_strlit(".");
        }
        r.append(".");
        proof {
            assert("."@ =~= seq!['.']);
        }
        r.append(u32_to_string(ip.thirds).as_str());
    }
    r
}

/// A blank cell of `w` spaces.
fn blank(w: usize) -> (r: String)
    ensures
        r@ == spaces(w as int),
{
    let r = pad_right("", w);
    proof {
        reveal_strlit("");
        assert(r@ =~= spaces(w as int));
    }
    r
}

/// One CSV cell of a row: the value of the column the header names,
/// empty when the record's stat block does not carry it.
pub open spec fn csv_cell_spec(fp: FantasyPlayerView, h: Seq<char>) -> Seq<char> {
    if h == "Player"@ {
        fp.player.name
    } else if h == "Team"@ {
        fp.team
    } else if h == "FanPts"@ {
        fanpts_str(fp.fantasy_points)
    } else if h == "Pos"@ {
        fp.player.primary_position
    } else if h == "B.AB"@ {
        match fp.player.batter_stats {
            Some(b) => dec_str(b.at_bats as int),
            None => Seq::empty(),
        }
    } else if h == "B.R"@ {
        match fp.player.batter_stats {
            Some(b) => dec_str(b.runs as int),
            None => Seq::empty(),
        }
    } else if h == "B.H"@ {
        match fp.player.batter_stats {
            Some(b) => dec_str(b.hits as int),
            None => Seq::empty(),
        }
    } else if h == "B.1B"@ {
        match fp.player.batter_stats {
            Some(b) => dec_str(b.singles as int),
            None => Seq::empty(),
        }
    } else if h == "B.2B"@ {
        match fp.player.batter_stats {
            Some(b) => dec_str(b.doubles as int),
            None => Seq::empty(),
        }
    } else if h == "B.3B"@ {
        match fp.player.batter_stats {
            Some(b) => dec_str(b.triples as int),
            None => Seq::empty(),
        }
    } else if h == "B.HR"@ {
        match fp.player.batter_stats {
            Some(b) => dec_str(b.home_runs as int),
            None => Seq::empty(),
        }
    } else if h == "B.RBI"@ {
        match fp.player.batter_stats {
            Some(b) => dec_str(b.runs_batted_in as int),
            None => Seq::empty(),
        }
    } else if h == "B.SAC"@ {
        match fp.player.batter_stats {
            Some(b) => dec_str(b.sacrifice_hits as int),
            None => Seq::empty(),
        }
    } else if h == "B.SB"@ {
        match fp.player.batter_stats {
            Some(b) => dec_str(b.stolen_bases as int),
            None => Seq::empty(),
        }
    } else if h == "B.CS"@ {
        match fp.player.batter_stats {
            Some(b) => dec_str(b.caught_stealing as int),
            None => Seq::empty(),
        }
    } else if h == "B.BB"@ {
        match fp.player.batter_stats {
            Some(b) => dec_str(b.walks as int),
            None => Seq::empty(),
        }
    } else if h == "B.IBB"@ {
        match fp.player.batter_stats {
            Some(b) => dec_str(b.intentional_walks as int),
            None => Seq::empty(),
        }
    } else if h == "B.HBP"@ {
        match fp.player.batter_stats {
            Some(b) => dec_str(b.hit_by_pitch as int),
            None => Seq::empty(),
        }
    } else if h == "B.K"@ {
        match fp.player.batter_stats {
            Some(b) => dec_str(b.strikeouts as int),
            None => Seq::empty(),
        }
    } else if h == "B.GIDP"@ {
        match fp.player.batter_stats {
            Some(b) => dec_str(b.ground_into_double_play as int),
            None => Seq::empty(),
        }
    } else if h == "B.TB"@ {
        match fp.player.batter_stats {
            Some(b) => dec_str(b.total_bases as int),
            None => Seq::empty(),
        }
    } else if h == "P.IP"@ {
        match fp.player.pitcher_stats {
            Some(ps) => ip_str(ps.innings_pitched),
            None => Seq::empty(),
        }
    } else if h == "P.W"@ {
        match fp.player.pitcher_stats {
            Some(ps) => dec_str(ps.wins as int),
            None => Seq::empty(),
        }
    } else if h == "P.L"@ {
        match fp.player.pitcher_stats {
            Some(ps) => dec_str(ps.losses as int),
            None => Seq::empty(),
        }
    } else if h == "P.CG"@ {
        match fp.player.pitcher_stats {
            Some(ps) => dec_str(ps.complete_games as int),
            None => Seq::empty(),
        }
    } else if h == "P.SHO"@ {
        match fp.player.pitcher_stats {
            Some(ps) => dec_str(ps.shutouts as int),
            None => Seq::empty(),
        }
    } else if h == "P.SV"@ {
        match fp.player.pitcher_stats {
            Some(ps) => dec_str(ps.saves as int),
            None => Seq::empty(),
        }
    } else if h == "P.OUT"@ {
        match fp.player.pitcher_stats {
            Some(ps) => dec_str(ps.outs as int),
            None => Seq::empty(),
        }
    } else if h == "P.H"@ {
        match fp.player.pitcher_stats {
            Some(ps) => dec_str(ps.hits as int),
            None => Seq::empty(),
        }
    } else if h == "P.ER"@ {
        match fp.player.pitcher_stats {
            Some(ps) => dec_str(ps.earned_runs as int),
            None => Seq::empty(),
        }
    } else if h == "P.HR"@ {
        match fp.player.pitcher_stats {
            Some(ps) => dec_str(ps.home_runs as int),
            None => Seq::empty(),
        }
    } else if h == "P.BB"@ {
        match fp.player.pitcher_stats {
            Some(ps) => dec_str(ps.walks as int),
            None => Seq::empty(),
        }
    } else if h == "P.IBB"@ {
        match fp.player.pitcher_stats {
            Some(ps) => dec_str(ps.intentional_walks as int),
            None => Seq::empty(),
        }
    } else if h == "P.HBP"@ {
        match fp.player.pitcher_stats {
            Some(ps) => dec_str(ps.hit_batters as int),
            None => Seq::empty(),
        }
    } else if h == "P.K"@ {
        match fp.player.pitcher_stats {
            Some(ps) => dec_str(ps.strikeouts as int),
            None => Seq::empty(),
        }
    } else if h == "P.SB"@ {
        match fp.player.pitcher_stats {
            Some(ps) => dec_str(ps.stolen_bases_allowed as int),
            None => Seq::empty(),
        }
    } else if h == "P.GIDP"@ {
        match fp.player.pitcher_stats {
            Some(ps) => dec_str(ps.batters_grounded_into_double_plays as int),
            None => Seq::empty(),
        }
    } else if h == "P.TB"@ {
        match fp.player.pitcher_stats {
            Some(ps) => dec_str(ps.total_bases_allowed as int),
            None => Seq::empty(),
        }
    } else {
        Seq::empty()
    }
}

/// One fixed-width cell of a pretty row: the same value left-aligned
/// in the column's width (points right-aligned), names truncated to
/// the column's byte budget.
pub open spec fn pretty_cell_spec(fp: FantasyPlayerView, h: Seq<char>) -> Seq<char> {
    if h == "Player"@ {
        pad_right_spec(fp.player.name.subrange(0, fit_len(fp.player.name, 17) as int), 18)
    } else if h == "Team"@ {
        pad_right_spec(fp.team.subrange(0, fit_len(fp.team, 9) as int), 10)
    } else if h == "FanPts"@ {
        pad_left_spec(fanpts_str(fp.fantasy_points), 6) + " "@
    } else if h == "Pos"@ {
        pad_right_spec(fp.player.primary_position, 4)
    } else if h == "B.AB"@ {
        match fp.player.batter_stats {
            Some(b) => pad_right_spec(dec_str(b.at_bats as int), 5),
            None => spaces(5),
        }
    } else if h == "B.R"@ {
        match fp.player.batter_stats {
            Some(b) => pad_right_spec(dec_str(b.runs as int), 4),
            None => spaces(4),
        }
    } else if h == "B.H"@ {
        match fp.player.batter_stats {
            Some(b) => pad_right_spec(dec_str(b.hits as int), 4),
            None => spaces(4),
        }
    } else if h == "B.1B"@ {
        match fp.player.batter_stats {
            Some(b) => pad_right_spec(dec_str(b.singles as int), 5),
            None => spaces(5),
        }
    } else if h == "B.2B"@ {
        match fp.player.batter_stats {
            Some(b) => pad_right_spec(dec_str(b.doubles as int), 5),
            None => spaces(5),
        }
    } else if h == "B.3B"@ {
        match fp.player.batter_stats {
            Some(b) => pad_right_spec(dec_str(b.triples as int), 5),
            None => spaces(5),
        }
    } else if h == "B.HR"@ {
        match fp.player.batter_stats {
            Some(b) => pad_right_spec(dec_str(b.home_runs as int), 5),
            None => spaces(5),
        }
    } else if h == "B.RBI"@ {
        match fp.player.batter_stats {
            Some(b) => pad_right_spec(dec_str(b.runs_batted_in as int), 6),
            None => spaces(6),
        }
    } else if h == "B.SAC"@ {
        match fp.player.batter_stats {
            Some(b) => pad_right_spec(dec_str(b.sacrifice_hits as int), 6),
            None => spaces(6),
        }
    } else if h == "B.SB"@ {
        match fp.player.batter_stats {
            Some(b) => pad_right_spec(dec_str(b.stolen_bases as int), 5),
            None => spaces(5),
        }
    } else if h == "B.CS"@ {
        match fp.player.batter_stats {
            Some(b) => pad_right_spec(dec_str(b.caught_stealing as int), 5),
            None => spaces(5),
        }
    } else if h == "B.BB"@ {
        match fp.player.batter_stats {
            Some(b) => pad_right_spec(dec_str(b.walks as int), 5),
            None => spaces(5),
        }
    } else if h == "B.IBB"@ {
        match fp.player.batter_stats {
            Some(b) => pad_right_spec(dec_str(b.intentional_walks as int), 6),
            None => spaces(6),
        }
    } else if h == "B.HBP"@ {
        match fp.player.batter_stats {
            Some(b) => pad_right_spec(dec_str(b.hit_by_pitch as int), 6),
            None => spaces(6),
        }
    } else if h == "B.K"@ {
        match fp.player.batter_stats {
            Some(b) => pad_right_spec(dec_str(b.strikeouts as int), 4),
            None => spaces(4),
        }
    } else if h == "B.GIDP"@ {
        match fp.player.batter_stats {
            Some(b) => pad_right_spec(dec_str(b.ground_into_double_play as int), 7),
            None => spaces(7),
        }
    } else if h == "B.TB"@ {
        match fp.player.batter_stats {
            Some(b) => pad_right_spec(dec_str(b.total_bases as int), 5),
            None => spaces(5),
        }
    } else if h == "P.IP"@ {
        match fp.player.pitcher_stats {
            Some(ps) => pad_right_spec(ip_str(ps.innings_pitched), 7),
            None => spaces(7),
        }
    } else if h == "P.W"@ {
        match fp.player.pitcher_stats {
            Some(ps) => pad_right_spec(dec_str(ps.wins as int), 4),
            None => spaces(4),
        }
    } else if h == "P.L"@ {
        match fp.player.pitcher_stats {
            Some(ps) => pad_right_spec(dec_str(ps.losses as int), 4),
            None => spaces(4),
        }
    } else if h == "P.CG"@ {
        match fp.player.pitcher_stats {
            Some(ps) => pad_right_spec(dec_str(ps.complete_games as int), 5),
            None => spaces(5),
        }
    } else if h == "P.SHO"@ {
        match fp.player.pitcher_stats {
            Some(ps) => pad_right_spec(dec_str(ps.shutouts as int), 6),
            None => spaces(6),
        }
    } else if h == "P.SV"@ {
        match fp.player.pitcher_stats {
            Some(ps) => pad_right_spec(dec_str(ps.saves as int), 5),
            None => spaces(5),
        }
    } else if h == "P.OUT"@ {
        match fp.player.pitcher_stats {
            Some(ps) => pad_right_spec(dec_str(ps.outs as int), 6),
            None => spaces(6),
        }
    } else if h == "P.H"@ {
        match fp.player.pitcher_stats {
            Some(ps) => pad_right_spec(dec_str(ps.hits as int), 4),
            None => spaces(4),
        }
    } else if h == "P.ER"@ {
        match fp.player.pitcher_stats {
            Some(ps) => pad_right_spec(dec_str(ps.earned_runs as int), 5),
            None => spaces(5),
        }
    } else if h == "P.HR"@ {
        match fp.player.pitcher_stats {
            Some(ps) => pad_right_spec(dec_str(ps.home_runs as int), 5),
            None => spaces(5),
        }
    } else if h == "P.BB"@ {
        match fp.player.pitcher_stats {
            Some(ps) => pad_right_spec(dec_str(ps.walks as int), 5),
            None => spaces(5),
        }
    } else if h == "P.IBB"@ {
        match fp.player.pitcher_stats {
            Some(ps) => pad_right_spec(dec_str(ps.intentional_walks as int), 6),
            None => spaces(6),
        }
    } else if h == "P.HBP"@ {
        match fp.player.pitcher_stats {
            Some(ps) => pad_right_spec(dec_str(ps.hit_batters as int), 6),
            None => spaces(6),
        }
    } else if h == "P.K"@ {
        match fp.player.pitcher_stats {
            Some(ps) => pad_right_spec(dec_str(ps.strikeouts as int), 4),
            None => spaces(4),
        }
    } else if h == "P.SB"@ {
        match fp.player.pitcher_stats {
            Some(ps) => pad_right_spec(dec_str(ps.stolen_bases_allowed as int), 5),
            None => spaces(5),
        }
    } else if h == "P.GIDP"@ {
        match fp.player.pitcher_stats {
            Some(ps) => pad_right_spec(dec_str(ps.batters_grounded_into_double_plays as int), 7),
            None => spaces(7),
        }
    } else if h == "P.TB"@ {
        match fp.player.pitcher_stats {
            Some(ps) => pad_right_spec(dec_str(ps.total_bases_allowed as int), 5),
            None => spaces(5),
        }
    } else {
        Seq::empty()
    }
}

fn csv_cell(fp: &FantasyPlayer, h: &String) -> (c: String)
    ensures
        c@ == csv_cell_spec(fp@, h@),
{
    if str_eq(h.as_str(), "Player") {
        fp.player.name.clone()
    } else if str_eq(h.as_str(), "Team") {
        fp.team.clone()
    } else if str_eq(h.as_str(), "FanPts") {
        fanpts_string(fp.fantasy_points)
    } else if str_eq(h.as_str(), "Pos") {
        fp.player.primary_position.clone()
    } else if str_eq(h.as_str(), "B.AB") {
        match fp.player.batter_stats {
            Some(b) => u32_to_string(b.at_bats),
            None => String::new(),
        }
    } else if str_eq(h.as_str(), "B.R") {
        match fp.player.batter_stats {
            Some(b) => u32_to_string(b.runs),
            None => String::new(),
        }
    } else if str_eq(h.as_str(), "B.H") {
        match fp.player.batter_stats {
            Some(b) => u32_to_string(b.hits),
            None => String::new(),
        }
    } else if str_eq(h.as_str(), "B.1B") {
        match fp.player.batter_stats {
            Some(b) => u32_to_string(b.singles),
            None => String::new(),
        }
    } else if str_eq(h.as_str(), "B.2B") {
        match fp.player.batter_stats {
            Some(b) => u32_to_string(b.doubles),
            None => String::new(),
        }
    } else if str_eq(h.as_str(), "B.3B") {
        match fp.player.batter_stats {
            Some(b) => u32_to_string(b.triples),
            None => String::new(),
        }
    } else if str_eq(h.as_str(), "B.HR") {
        match fp.player.batter_stats {
            Some(b) => u32_to_string(b.home_runs),
            None => String::new(),
        }
    } else if str_eq(h.as_str(), "B.RBI") {
        match fp.player.batter_stats {
            Some(b) => u32_to_string(b.runs_batted_in),
            None => String::new(),
        }
    } else if str_eq(h.as_str(), "B.SAC") {
        match fp.player.batter_stats {
            Some(b) => u32_to_string(b.sacrifice_hits),
            None => String::new(),
        }
    } else if str_eq(h.as_str(), "B.SB") {
        match fp.player.batter_stats {
            Some(b) => u32_to_string(b.stolen_bases),
            None => String::new(),
        }
    } else if str_eq(h.as_str(), "B.CS") {
        match fp.player.batter_stats {
            Some(b) => u32_to_string(b.caught_stealing),
            None => String::new(),
        }
    } else if str_eq(h.as_str(), "B.BB") {
        match fp.player.batter_stats {
            Some(b) => u32_to_string(b.walks),
            None => String::new(),
        }
    } else if str_eq(h.as_str(), "B.IBB") {
        match fp.player.batter_stats {
            Some(b) => u32_to_string(b.intentional_walks),
            None => String::new(),
        }
    } else if str_eq(h.as_str(), "B.HBP") {
        match fp.player.batter_stats {
            Some(b) => u32_to_string(b.hit_by_pitch),
            None => String::new(),
        }
    } else if str_eq(h.as_str(), "B.K") {
        match fp.player.batter_stats {
            Some(b) => u32_to_string(b.strikeouts),
            None => String::new(),
        }
    } else if str_eq(h.as_str(), "B.GIDP") {
        match fp.player.batter_stats {
            Some(b) => u32_to_string(b.ground_into_double_play),
            None => String::new(),
        }
    } else if str_eq(h.as_str(), "B.TB") {
        match fp.player.batter_stats {
            Some(b) => u32_to_string(b.total_bases),
            None => String::new(),
        }
    } else if str_eq(h.as_str(), "P.IP") {
        match fp.player.pitcher_stats {
            Some(ps) => ip_string(ps.innings_pitched),
            None => String::new(),
        }
    } else if str_eq(h.as_str(), "P.W") {
        match fp.player.pitcher_stats {
            Some(ps) => u32_to_string(ps.wins),
            None => String::new(),
        }
    } else if str_eq(h.as_str(), "P.L") {
        match fp.player.pitcher_stats {
            Some(ps) => u32_to_string(ps.losses),
            None => String::new(),
        }
    } else if str_eq(h.as_str(), "P.CG") {
        match fp.player.pitcher_stats {
            Some(ps) => u32_to_string(ps.complete_games),
            None => String::new(),
        }
    } else if str_eq(h.as_str(), "P.SHO") {
        match fp.player.pitcher_stats {
            Some(ps) => u32_to_string(ps.shutouts),
            None => String::new(),
        }
    } else if str_eq(h.as_str(), "P.SV") {
        match fp.player.pitcher_stats {
            Some(ps) => u32_to_string(ps.saves),
            None => String::new(),
        }
    } else if str_eq(h.as_str(), "P.OUT") {
        match fp.player.pitcher_stats {
            Some(ps) => u32_to_string(ps.outs),
            None => String::new(),
        }
    } else if str_eq(h.as_str(), "P.H") {
        match fp.player.pitcher_stats {
            Some(ps) => u32_to_string(ps.hits),
            None => String::new(),
        }
    } else if str_eq(h.as_str(), "P.ER") {
        match fp.player.pitcher_stats {
            Some(ps) => u32_to_string(ps.earned_runs),
            None => String::new(),
        }
    } else if str_eq(h.as_str(), "P.HR") {
        match fp.player.pitcher_stats {
            Some(ps) => u32_to_string(ps.home_runs),
            None => String::new(),
        }
    } else if str_eq(h.as_str(), "P.BB") {
        match fp.player.pitcher_stats {
            Some(ps) => u32_to_string(ps.walks),
            None => String::new(),
        }
    } else if str_eq(h.as_str(), "P.IBB") {
        match fp.player.pitcher_stats {
            Some(ps) => u32_to_string(ps.intentional_walks),
            None => String::new(),
        }
    } else if str_eq(h.as_str(), "P.HBP") {
        match fp.player.pitcher_stats {
            Some(ps) => u32_to_string(ps.hit_batters),
            None => String::new(),
        }
    } else if str_eq(h.as_str(), "P.K") {
        match fp.player.pitcher_stats {
            Some(ps) => u32_to_string(ps.strikeouts),
            None => String::new(),
        }
    } else if str_eq(h.as_str(), "P.SB") {
        match fp.player.pitcher_stats {
            Some(ps) => u32_to_string(ps.stolen_bases_allowed),
            None => String::new(),
        }
    } else if str_eq(h.as_str(), "P.GIDP") {
        match fp.player.pitcher_stats {
            Some(ps) => u32_to_string(ps.batters_grounded_into_double_plays),
            None => String::new(),
        }
    } else if str_eq(h.as_str(), "P.TB") {
        match fp.player.pitcher_stats {
            Some(ps) => u32_to_string(ps.total_bases_allowed),
            None => String::new(),
        }
    } else {
        String::new()
    }
}

fn pretty_cell(fp: &FantasyPlayer, h: &String) -> (c: String)
    ensures
        c@ == pretty_cell_spec(fp@, h@),
{
    if str_eq(h.as_str(), "Player") {
        let t = truncate_bytes(fp.player.name.as_str(), 17);
        pad_right(t.as_str(), 18)
    } else if str_eq(h.as_str(), "Team") {
        let t = truncate_bytes(fp.team.as_str(), 9);
        pad_right(t.as_str(), 10)
    } else if str_eq(h.as_str(), "FanPts") {
        let v = fanpts_string(fp.fantasy_points);
        let mut c = pad_left(v.as_str(), 6);
        c.append(" ");
        c
    } else if str_eq(h.as_str(), "Pos") {
        pad_right(fp.player.primary_position.as_str(), 4)
    } else if str_eq(h.as_str(), "B.AB") {
        match fp.player.batter_stats {
            Some(b) => {
                let v = u32_to_string(b.at_bats);
                pad_right(v.as_str(), 5)
            },
            None => blank(5),
        }
    } else if str_eq(h.as_str(), "B.R") {
        match fp.player.batter_stats {
            Some(b) => {
                let v = u32_to_string(b.runs);
                pad_right(v.as_str(), 4)
            },
            None => blank(4),
        }
    } else if str_eq(h.as_str(), "B.H") {
        match fp.player.batter_stats {
            Some(b) => {
                let v = u32_to_string(b.hits);
                pad_right(v.as_str(), 4)
            },
            None => blank(4),
        }
    } else if str_eq(h.as_str(), "B.1B") {
        match fp.player.batter_stats {
            Some(b) => {
                let v = u32_to_string(b.singles);
                pad_right(v.as_str(), 5)
            },
            None => blank(5),
        }
    } else if str_eq(h.as_str(), "B.2B") {
        match fp.player.batter_stats {
            Some(b) => {
                let v = u32_to_string(b.doubles);
                pad_right(v.as_str(), 5)
            },
            None => blank(5),
        }
    } else if str_eq(h.as_str(), "B.3B") {
        match fp.player.batter_stats {
            Some(b) => {
                let v = u32_to_string(b.triples);
                pad_right(v.as_str(), 5)
            },
            None => blank(5),
        }
    } else if str_eq(h.as_str(), "B.HR") {
        match fp.player.batter_stats {
            Some(b) => {
                let v = u32_to_string(b.home_runs);
                pad_right(v.as_str(), 5)
            },
            None => blank(5),
        }
    } else if str_eq(h.as_str(), "B.RBI") {
        match fp.player.batter_stats {
            Some(b) => {
                let v = u32_to_string(b.runs_batted_in);
                pad_right(v.as_str(), 6)
            },
            None => blank(6),
        }
    } else if str_eq(h.as_str(), "B.SAC") {
        match fp.player.batter_stats {
            Some(b) => {
                let v = u32_to_string(b.sacrifice_hits);
                pad_right(v.as_str(), 6)
            },
            None => blank(6),
        }
    } else if str_eq(h.as_str(), "B.SB") {
        match fp.player.batter_stats {
            Some(b) => {
                let v = u32_to_string(b.stolen_bases);
                pad_right(v.as_str(), 5)
            },
            None => blank(5),
        }
    } else if str_eq(h.as_str(), "B.CS") {
        match fp.player.batter_stats {
            Some(b) => {
                let v = u32_to_string(b.caught_stealing);
                pad_right(v.as_str(), 5)
            },
            None => blank(5),
        }
    } else if str_eq(h.as_str(), "B.BB") {
        match fp.player.batter_stats {
            Some(b) => {
                let v = u32_to_string(b.walks);
                pad_right(v.as_str(), 5)
            },
            None => blank(5),
        }
    } else if str_eq(h.as_str(), "B.IBB") {
        match fp.player.batter_stats {
            Some(b) => {
                let v = u32_to_string(b.intentional_walks);
                pad_right(v.as_str(), 6)
            },
            None => blank(6),
        }
    } else if str_eq(h.as_str(), "B.HBP") {
        match fp.player.batter_stats {
            Some(b) => {
                let v = u32_to_string(b.hit_by_pitch);
                pad_right(v.as_str(), 6)
            },
            None => blank(6),
        }
    } else if str_eq(h.as_str(), "B.K") {
        match fp.player.batter_stats {
            Some(b) => {
                let v = u32_to_string(b.strikeouts);
                pad_right(v.as_str(), 4)
            },
            None => blank(4),
        }
    } else if str_eq(h.as_str(), "B.GIDP") {
        match fp.player.batter_stats {
            Some(b) => {
                let v = u32_to_string(b.ground_into_double_play);
                pad_right(v.as_str(), 7)
            },
            None => blank(7),
        }
    } else if str_eq(h.as_str(), "B.TB") {
        match fp.player.batter_stats {
            Some(b) => {
                let v = u32_to_string(b.total_bases);
                pad_right(v.as_str(), 5)
            },
            None => blank(5),
        }
    } else if str_eq(h.as_str(), "P.IP") {
        match fp.player.pitcher_stats {
            Some(ps) => {
                let v = ip_string(ps.innings_pitched);
                pad_right(v.as_str(), 7)
            },
            None => blank(7),
        }
    } else if str_eq(h.as_str(), "P.W") {
        match fp.player.pitcher_stats {
            Some(ps) => {
                let v = u32_to_string(ps.wins);
                pad_right(v.as_str(), 4)
            },
            None => blank(4),
        }
    } else if str_eq(h.as_str(), "P.L") {
        match fp.player.pitcher_stats {
            Some(ps) => {
                let v = u32_to_string(ps.losses);
                pad_right(v.as_str(), 4)
            },
            None => blank(4),
        }
    } else if str_eq(h.as_str(), "P.CG") {
        match fp.player.pitcher_stats {
            Some(ps) => {
                let v = u32_to_string(ps.complete_games);
                pad_right(v.as_str(), 5)
            },
            None => blank(5),
        }
    } else if str_eq(h.as_str(), "P.SHO") {
        match fp.player.pitcher_stats {
            Some(ps) => {
                let v = u32_to_string(ps.shutouts);
                pad_right(v.as_str(), 6)
            },
            None => blank(6),
        }
    } else if str_eq(h.as_str(), "P.SV") {
        match fp.player.pitcher_stats {
            Some(ps) => {
                let v = u32_to_string(ps.saves);
                pad_right(v.as_str(), 5)
            },
            None => blank(5),
        }
    } else if str_eq(h.as_str(), "P.OUT") {
        match fp.player.pitcher_stats {
            Some(ps) => {
                let v = u32_to_string(ps.outs);
                pad_right(v.as_str(), 6)
            },
            None => blank(6),
        }
    } else if str_eq(h.as_str(), "P.H") {
        match fp.player.pitcher_stats {
            Some(ps) => {
                let v = u32_to_string(ps.hits);
                pad_right(v.as_str(), 4)
            },
            None => blank(4),
        }
    } else if str_eq(h.as_str(), "P.ER") {
        match fp.player.pitcher_stats {
            Some(ps) => {
                let v = u32_to_string(ps.earned_runs);
                pad_right(v.as_str(), 5)
            },
            None => blank(5),
        }
    } else if str_eq(h.as_str(), "P.HR") {
        match fp.player.pitcher_stats {
            Some(ps) => {
                let v = u32_to_string(ps.home_runs);
                pad_right(v.as_str(), 5)
            },
            None => blank(5),
        }
    } else if str_eq(h.as_str(), "P.BB") {
        match fp.player.pitcher_stats {
            Some(ps) => {
                let v = u32_to_string(ps.walks);
                pad_right(v.as_str(), 5)
            },
            None => blank(5),
        }
    } else if str_eq(h.as_str(), "P.IBB") {
        match fp.player.pitcher_stats {
            Some(ps) => {
                let v = u32_to_string(ps.intentional_walks);
                pad_right(v.as_str(), 6)
            },
            None => blank(6),
        }
    } else if str_eq(h.as_str(), "P.HBP") {
        match fp.player.pitcher_stats {
            Some(ps) => {
                let v = u32_to_string(ps.hit_batters);
                pad_right(v.as_str(), 6)
            },
            None => blank(6),
        }
    } else if str_eq(h.as_str(), "P.K") {
        match fp.player.pitcher_stats {
            Some(ps) => {
                let v = u32_to_string(ps.strikeouts);
                pad_right(v.as_str(), 4)
            },
            None => blank(4),
        }
    } else if str_eq(h.as_str(), "P.SB") {
        match fp.player.pitcher_stats {
            Some(ps) => {
                let v = u32_to_string(ps.stolen_bases_allowed);
                pad_right(v.as_str(), 5)
            },
            None => blank(5),
        }
    } else if str_eq(h.as_str(), "P.GIDP") {
        match fp.player.pitcher_stats {
            Some(ps) => {
                let v = u32_to_string(ps.batters_grounded_into_double_plays);
                pad_right(v.as_str(), 7)
            },
            None => blank(7),
        }
    } else if str_eq(h.as_str(), "P.TB") {
        match fp.player.pitcher_stats {
            Some(ps) => {
                let v = u32_to_string(ps.total_bases_allowed);
                pad_right(v.as_str(), 5)
            },
            None => blank(5),
        }
    } else {
        String::new()
    }
}

/// The row's cells, one per header item, in header order.
pub open spec fn row_cells_spec(
    fp: FantasyPlayerView,
    headers: Seq<Seq<char>>,
    is_csv: bool,
) -> Seq<Seq<char>>
    decreases headers.len(),
{
    if headers.len() == 0 {
        Seq::empty()
    } else {
        row_cells_spec(fp, headers.drop_last(), is_csv).push(
            if is_csv {
                csv_cell_spec(fp, headers.last())
            } else {
                pretty_cell_spec(fp, headers.last())
            },
        )
    }
}

/// A scored record's report row: its cells in header order, joined
/// with commas for CSV and butted together for the fixed-width table.
pub open spec fn player_stats_string_spec(
    fp: FantasyPlayerView,
    headers: Seq<Seq<char>>,
    is_csv: bool,
) -> Seq<char> {
    join_sep(row_cells_spec(fp, headers, is_csv), if is_csv {
        ","@
    } else {
        ""@
    })
}

/// Renders one scored record as a report row under the given header.
pub fn get_player_stats_string(fp: &FantasyPlayer, headers: &Vec<String>, is_csv: bool) -> (r:
    String)
    ensures
        r@ == player_stats_string_spec(fp@, headers.deep_view(), is_csv),
{
    let mut cells: Vec<String> = Vec::new();
    let mut i: usize = 0;
    proof {
        assert(headers.deep_view().take(0) =~= Seq::<Seq<char>>::empty());
        assert(cells.deep_view() =~= row_cells_spec(fp@, headers.deep_view().take(0), is_csv));
    }
    while i < headers.len()
        invariant
            i <= headers@.len(),
            headers.deep_view().len() == headers@.len(),
            cells.deep_view() == row_cells_spec(fp@, headers.deep_view().take(i as int), is_csv),
        decreases headers@.len() - i,
    {
        let c = if is_csv {
            csv_cell(fp, &headers[i])
        } else {
            pretty_cell(fp, &headers[i])
        };
        cells.push(c);
        i += 1;
        proof {
            let dv = headers.deep_view();
            assert(dv.take(i as int).drop_last() =~= dv.take(i - 1));
            assert(dv.take(i as int).last() == dv[i - 1]);
            assert(dv[i - 1] == headers@[i - 1]@);
            assert(cells.deep_view() =~= row_cells_spec(fp@, dv.take(i as int), is_csv));
        }
    }
    proof {
        assert(headers.deep_view().take(headers@.len() as int) =~= headers.deep_view());
    }
    if is_csv {
        join_with(&cells, ",")
    } else {
        let r = join_with(&cells, "");
        r
    }
}

/// One header cell of the fixed-width table: the player and team
/// columns widen to their fixed fields, the innings column gets three
/// trailing spaces, every other column one.
pub open spec fn pretty_header_cell_spec(h: Seq<char>) -> Seq<char> {
    if contains_sub(h, "Player"@) {
        pad_right_spec("Player"@, 18)
    } else if contains_sub(h, "Team"@) {
        pad_right_spec("Team"@, 10)
    } else if contains_sub(h, "P.IP"@) {
        h + "   "@
    } else {
        h + " "@
    }
}

/// The pretty header cells in order.
pub open spec fn pretty_header_cells_spec(headers: Seq<Seq<char>>) -> Seq<Seq<char>>
    decreases headers.len(),
{
    if headers.len() == 0 {
        Seq::empty()
    } else {
        pretty_header_cells_spec(headers.drop_last()).push(
            pretty_header_cell_spec(headers.last()),
        )
    }
}

/// The header line: items joined with commas for CSV, or each item in
/// its fixed-width field for the pretty table.
pub open spec fn header_string_spec(headers: Seq<Seq<char>>, is_csv: bool) -> Seq<char> {
    if is_csv {
        join_sep(headers, ","@)
    } else {
        join_sep(pretty_header_cells_spec(headers), ""@)
    }
}

fn pretty_header_cell(h: &String) -> (c: String)
    ensures
        c@ == pretty_header_cell_spec(h@),
{
    if str_contains(h.as_str(), "Player") {
        pad_right("Player", 18)
    } else if str_contains(h.as_str(), "Team") {
        pad_right("Team", 10)
    } else if str_contains(h.as_str(), "P.IP") {
        let mut c = h.clone();
        c.append("   ");
        c
    } else {
        let mut c = h.clone();
        c.append(" ");
        c
    }
}

/// Renders the report's header line.
pub fn get_header_string(headers: &Vec<String>, is_csv: bool) -> (r: String)
    ensures
        r@ == header_string_spec(headers.deep_view(), is_csv),
{
    if is_csv {
        return join_with(headers, ",");
    }
    let mut cells: Vec<String> = Vec::new();
    let mut i: usize = 0;
    proof {
        assert(headers.deep_view().take(0) =~= Seq::<Seq<char>>::empty());
        assert(cells.deep_view() =~= pretty_header_cells_spec(headers.deep_view().take(0)));
    }
    while i < headers.len()
        invariant
            i <= headers@.len(),
            headers.deep_view().len() == headers@.len(),
            cells.deep_view() == pretty_header_cells_spec(headers.deep_view().take(i as int)),
        decreases headers@.len() - i,
    {
        cells.push(pretty_header_cell(&headers[i]));
        i += 1;
        proof {
            let dv = headers.deep_view();
            assert(dv.take(i as int).drop_last() =~= dv.take(i - 1));
            assert(dv.take(i as int).last() == dv[i - 1]);
            assert(dv[i - 1] == headers@[i - 1]@);
            assert(cells.deep_view() =~= pretty_header_cells_spec(dv.take(i as int)));
        }
    }
    proof {
        assert(headers.deep_view().take(headers@.len() as int) =~= headers.deep_view());
    }
    join_with(&cells, "")
}

/// One team's accumulated fantasy points.
#[derive(Debug)]
pub struct TeamPoints {
    pub team: String,
    pub fantasy_points: i64,
}

/// The mathematical shape of a team total.
pub ghost struct TeamPointsView {
    pub team: Seq<char>,
    pub fantasy_points: int,
}

impl View for TeamPoints {
    type V = TeamPointsView;

    open spec fn view(&self) -> TeamPointsView {
        TeamPointsView { team: self.team@, fantasy_points: self.fantasy_points as int }
    }
}

impl DeepView for TeamPoints {
    type V = TeamPointsView;

    open spec fn deep_view(&self) -> TeamPointsView {
        self.view()
    }
}

/// The index of the first total for this team, or -1.
pub open spec fn find_team(acc: Seq<TeamPointsView>, team: Seq<char>) -> int
    decreases acc.len(),
{
    if acc.len() == 0 {
        -1
    } else if acc[0].team == team {
        0
    } else {
        let r = find_team(acc.skip(1), team);
        if r < 0 {
            -1
        } else {
            r + 1
        }
    }
}

proof fn lemma_find_team_at(acc: Seq<TeamPointsView>, team: Seq<char>, i: int)
    requires
        0 <= i < acc.len(),
        acc[i].team == team,
        forall|j: int| 0 <= j < i ==> acc[j].team != team,
    ensures
        find_team(acc, team) == i,
    decreases i,
{
    if i == 0 {
    } else {
        assert(acc.skip(1)[i - 1] == acc[i]);
        assert(forall|j: int| 0 <= j < i - 1 ==> acc.skip(1)[j] == acc[j + 1]);
        lemma_find_team_at(acc.skip(1), team, i - 1);
    }
}

proof fn lemma_find_team_none(acc: Seq<TeamPointsView>, team: Seq<char>)
    requires
        forall|j: int| 0 <= j < acc.len() ==> acc[j].team != team,
    ensures
        find_team(acc, team) == -1,
    decreases acc.len(),
{
    if acc.len() == 0 {
    } else {
        assert(forall|j: int| 0 <= j < acc.len() - 1 ==> acc.skip(1)[j] == acc[j + 1]);
        lemma_find_team_none(acc.skip(1), team);
    }
}

/// One scored record folded into the team totals: added to its team's
/// total, or opening a new team in encounter order.
pub open spec fn add_team_spec(
    acc: Seq<TeamPointsView>,
    fp: FantasyPlayerView,
) -> Seq<TeamPointsView> {
    let i = find_team(acc, fp.team);
    if i >= 0 {
        acc.update(
            i,
            TeamPointsView {
                team: acc[i].team,
                fantasy_points: clip_add(acc[i].fantasy_points, fp.fantasy_points),
            },
        )
    } else {
        acc.push(TeamPointsView { team: fp.team, fantasy_points: fp.fantasy_points })
    }
}

/// Every record's points summed into its team, teams in
/// first-encounter order.
pub open spec fn team_sums_spec(s: Seq<FantasyPlayerView>) -> Seq<TeamPointsView>
    decreases s.len(),
{
    if s.len() == 0 {
        Seq::empty()
    } else {
        add_team_spec(team_sums_spec(s.drop_last()), s.last())
    }
}

/// Where a team total lands in the ranking: after every team with at
/// least as many points.
pub open spec fn insert_team_desc(
    s: Seq<TeamPointsView>,
    x: TeamPointsView,
) -> Seq<TeamPointsView>
    decreases s.len(),
{
    if s.len() == 0 {
        seq![x]
    } else if s[0].fantasy_points >= x.fantasy_points {
        seq![s[0]] + insert_team_desc(s.skip(1), x)
    } else {
        seq![x] + s
    }
}

/// The team totals ranked by points, highest first, stable.
pub open spec fn team_sort_desc(s: Seq<TeamPointsView>) -> Seq<TeamPointsView>
    decreases s.len(),
{
    if s.len() == 0 {
        Seq::empty()
    } else {
        insert_team_desc(team_sort_desc(s.drop_last()), s.last())
    }
}

proof fn lemma_insert_team_desc_split(s: Seq<TeamPointsView>, x: TeamPointsView, k: int)
    requires
        0 <= k <= s.len(),
        forall|j: int| 0 <= j < k ==> s[j].fantasy_points >= x.fantasy_points,
        k < s.len() ==> s[k].fantasy_points < x.fantasy_points,
    ensures
        insert_team_desc(s, x) == s.take(k) + seq![x] + s.skip(k),
    decreases k,
{
    if k == 0 {
        assert(insert_team_desc(s, x) =~= s.take(0) + seq![x] + s.skip(0));
    } else {
        assert(s[0].fantasy_points >= x.fantasy_points);
        assert(forall|j: int| 0 <= j < k - 1 ==> s.skip(1)[j] == s[j + 1]);
        lemma_insert_team_desc_split(s.skip(1), x, k - 1);
        assert(seq![s[0]] + (s.skip(1).take(k - 1) + seq![x] + s.skip(1).skip(k - 1)) =~= s.take(k)
            + seq![x] + s.skip(k));
    }
}

/// Groups scored records by team, sums each team's fantasy points and
/// ranks the teams by total, highest first.
pub fn scores_per_team(players: &Vec<FantasyPlayer>) -> (r: Vec<TeamPoints>)
    ensures
        r.deep_view() == team_sort_desc(team_sums_spec(players.deep_view())),
{
    let mut acc: Vec<TeamPoints> = Vec::new();
    let mut i: usize = 0;
    proof {
        assert(players.deep_view().take(0) =~= Seq::<FantasyPlayerView>::empty());
    }
    while i < players.len()
        invariant
            i <= players@.len(),
            players.deep_view().len() == players@.len(),
            acc.deep_view() == team_sums_spec(players.deep_view().take(i as int)),
        decreases players@.len() - i,
    {
        let fp = &players[i];
        let ghost accv = acc.deep_view();
        proof {
            assert(players.deep_view()[i as int] == players@[i as int]@);
        }
        let mut j: usize = 0;
        let mut hit: bool = false;
        while j < acc.len() && !hit
            invariant
                j <= acc@.len(),
                i < players@.len(),
                acc.deep_view().len() == acc@.len(),
                players.deep_view()[i as int] == players@[i as int]@,
                fp.team@ == players.deep_view()[i as int].team,
                forall|k: int|
                    0 <= k < j ==> acc.deep_view()[k].team != players.deep_view()[i as int].team,
                hit ==> j < acc@.len() && acc.deep_view()[j as int].team == players.deep_view()[
                    i as int
                ].team,
            decreases acc@.len() - j + (if hit { 0int } else { 1int }),
        {
            if str_eq(acc[j].team.as_str(), fp.team.as_str()) {
                proof {
                    assert(acc.deep_view()[j as int] == acc@[j as int]@);
                }
                hit = true;
            } else {
                proof {
                    assert(acc.deep_view()[j as int] == acc@[j as int]@);
                }
                j += 1;
            }
        }
        if hit {
            proof {
                lemma_find_team_at(acc.deep_view(), players.deep_view()[i as int].team, j as int);
            }
            let mut cur = acc.remove(j);
            cur.fantasy_points = crate::points::add_points(cur.fantasy_points, fp.fantasy_points);
            acc.insert(j, cur);
            proof {
                assert(acc.deep_view() =~= add_team_spec(accv, players.deep_view()[i as int]));
            }
        } else {
            proof {
                lemma_find_team_none(acc.deep_view(), players.deep_view()[i as int].team);
            }
            acc.push(TeamPoints { team: fp.team.clone(), fantasy_points: fp.fantasy_points });
            proof {
                assert(acc.deep_view() =~= add_team_spec(accv, players.deep_view()[i as int]));
            }
        }
        i += 1;
        proof {
            let dv = players.deep_view();
            assert(dv.take(i as int).drop_last() =~= dv.take(i - 1));
            assert(dv.take(i as int).last() == dv[i - 1]);
        }
    }
    proof {
        assert(players.deep_view().take(players@.len() as int) =~= players.deep_view());
    }
    let mut result: Vec<TeamPoints> = Vec::new();
    let mut i2: usize = 0;
    proof {
        assert(acc.deep_view().take(0) =~= Seq::<TeamPointsView>::empty());
    }
    while i2 < acc.len()
        invariant
            i2 <= acc@.len(),
            acc.deep_view().len() == acc@.len(),
            result.deep_view() == team_sort_desc(acc.deep_view().take(i2 as int)),
        decreases acc@.len() - i2,
    {
        let x = TeamPoints { team: acc[i2].team.clone(), fantasy_points: acc[i2].fantasy_points };
        let ghost resv = result.deep_view();
        let mut k: usize = 0;
        while k < result.len() && result[k].fantasy_points >= x.fantasy_points
            invariant
                k <= result@.len(),
                i2 < acc@.len(),
                result.deep_view().len() == result@.len(),
                x@ == acc.deep_view()[i2 as int],
                forall|j: int|
                    0 <= j < k ==> result.deep_view()[j].fantasy_points >= x@.fantasy_points,
            decreases result@.len() - k,
        {
            k += 1;
        }
        proof {
            lemma_insert_team_desc_split(result.deep_view(), x@, k as int);
        }
        result.insert(k, x);
        i2 += 1;
        proof {
            let dv = acc.deep_view();
            assert(result.deep_view() =~= resv.take(k as int) + seq![dv[i2 - 1]] + resv.skip(
                k as int,
            ));
            assert(dv.take(i2 as int).drop_last() =~= dv.take(i2 - 1));
            assert(dv.take(i2 as int).last() == dv[i2 - 1]);
        }
    }
    proof {
        assert(acc.deep_view().take(acc@.len() as int) =~= acc.deep_view());
    }
    result
}

/// The first records of one role, at most `n` of them, in list order.
pub open spec fn take_role_spec(
    s: Seq<FantasyPlayerView>,
    n: int,
    want_pitcher: bool,
) -> Seq<FantasyPlayerView>
    decreases s.len(),
{
    if s.len() == 0 || n <= 0 {
        Seq::empty()
    } else if is_pitcher_pos(s[0].player.primary_position) == want_pitcher {
        seq![s[0]] + take_role_spec(s.skip(1), n - 1, want_pitcher)
    } else {
        take_role_spec(s.skip(1), n, want_pitcher)
    }
}

/// Splits a ranked list into its first `n` batters and first `n`
/// pitchers, each role capped independently, keeping list order.
pub fn top_n_split(players: &Vec<FantasyPlayer>, n: usize) -> (r: (
    Vec<FantasyPlayer>,
    Vec<FantasyPlayer>,
))
    ensures
        r.0.deep_view() == take_role_spec(players.deep_view(), n as int, false),
        r.1.deep_view() == take_role_spec(players.deep_view(), n as int, true),
{
    let mut batters: Vec<FantasyPlayer> = Vec::new();
    let mut pitchers: Vec<FantasyPlayer> = Vec::new();
    let mut i: usize = 0;
    proof {
        assert(players.deep_view().skip(0) =~= players.deep_view());
    }
    while i < players.len()
        invariant
            i <= players@.len(),
            players.deep_view().len() == players@.len(),
            batters@.len() <= n,
            pitchers@.len() <= n,
            batters.deep_view() + take_role_spec(
                players.deep_view().skip(i as int),
                n - batters@.len(),
                false,
            ) == take_role_spec(players.deep_view(), n as int, false),
            pitchers.deep_view() + take_role_spec(
                players.deep_view().skip(i as int),
                n - pitchers@.len(),
                true,
            ) == take_role_spec(players.deep_view(), n as int, true),
        decreases players@.len() - i,
    {
        let p = &players[i];
        let ghost dv = players.deep_view();
        proof {
            assert(dv.skip(i as int)[0] == dv[i as int]);
            assert(dv.skip(i as int).skip(1) =~= dv.skip(i + 1));
        }
        let is_pitcher = str_eq(p.player.primary_position.as_str(), "SP") || str_eq(
            p.player.primary_position.as_str(),
            "RP",
        );
        if is_pitcher {
            if pitchers.len() < n {
                pitchers.push(p.duplicate());
                proof {
                    assert(pitchers.deep_view().drop_last() + (seq![dv[i as int]]
                        + take_role_spec(dv.skip(i + 1), n - pitchers@.len(), true)) =~= (
                    pitchers.deep_view().drop_last() + seq![dv[i as int]]) + take_role_spec(
                        dv.skip(i + 1),
                        n - pitchers@.len(),
                        true,
                    ));
                    assert(pitchers.deep_view().drop_last() + seq![dv[i as int]]
                        =~= pitchers.deep_view());
                }
            }
        } else {
            if batters.len() < n {
                batters.push(p.duplicate());
                proof {
                    assert(batters.deep_view().drop_last() + (seq![dv[i as int]] + take_role_spec(
                        dv.skip(i + 1),
                        n - batters@.len(),
                        false,
                    )) =~= (batters.deep_view().drop_last() + seq![dv[i as int]]) + take_role_spec(
                        dv.skip(i + 1),
                        n - batters@.len(),
                        false,
                    ));
                    assert(batters.deep_view().drop_last() + seq![dv[i as int]]
                        =~= batters.deep_view());
                }
            }
        }
        i += 1;
    }
    proof {
        assert(players.deep_view().skip(players@.len() as int).len() == 0);
        assert(batters.deep_view() + Seq::<FantasyPlayerView>::empty() =~= batters.deep_view());
        assert(pitchers.deep_view() + Seq::<FantasyPlayerView>::empty() =~= pitchers.deep_view());
    }
    (batters, pitchers)
}

/// The records whose single-date points meet their role's threshold:
/// the batter threshold for records with batting stats, the pitcher
/// threshold for records with pitching stats.
pub open spec fn outstanding_spec(
    s: Seq<FantasyPlayerView>,
    batter_threshold: int,
    pitcher_threshold: int,
) -> Seq<FantasyPlayerView>
    decreases s.len(),
{
    if s.len() == 0 {
        Seq::empty()
    } else {
        let rest = outstanding_spec(s.drop_last(), batter_threshold, pitcher_threshold);
        let x = s.last();
        if (x.player.batter_stats is Some && x.fantasy_points >= batter_threshold)
            || (x.player.pitcher_stats is Some && x.fantasy_points >= pitcher_threshold) {
            rest.push(x)
        } else {
            rest
        }
    }
}

/// Flags outstanding single-date performances: records whose points
/// meet the threshold of their stat block's role.
pub fn outstanding_players(
    players: &Vec<FantasyPlayer>,
    batter_threshold: i64,
    pitcher_threshold: i64,
) -> (r: Vec<FantasyPlayer>)
    ensures
        r.deep_view() == outstanding_spec(
            players.deep_view(),
            batter_threshold as int,
            pitcher_threshold as int,
        ),
{
    let mut r: Vec<FantasyPlayer> = Vec::new();
    let mut i: usize = 0;
    proof {
        assert(players.deep_view().take(0) =~= Seq::<FantasyPlayerView>::empty());
    }
    while i < players.len()
        invariant
            i <= players@.len(),
            players.deep_view().len() == players@.len(),
            r.deep_view() == outstanding_spec(
                players.deep_view().take(i as int),
                batter_threshold as int,
                pitcher_threshold as int,
            ),
        decreases players@.len() - i,
    {
        let p = &players[i];
        let keep = (p.player.batter_stats.is_some() && p.fantasy_points >= batter_threshold) || (
        p.player.pitcher_stats.is_some() && p.fantasy_points >= pitcher_threshold);
        if keep {
            r.push(p.duplicate());
        }
        i += 1;
        proof {
            let dv = players.deep_view();
            assert(dv.take(i as int).drop_last() =~= dv.take(i - 1));
            assert(dv.take(i as int).last() == dv[i - 1]);
            if keep {
                assert(r.deep_view() =~= outstanding_spec(
                    dv.take(i as int),
                    batter_threshold as int,
                    pitcher_threshold as int,
                ));
            }
        }
    }
    proof {
        assert(players.deep_view().take(players@.len() as int) =~= players.deep_view());
    }
    r
}

/// One team's fantasy points over a list of scored records, summed in
/// list order, zero when the team never appears.
pub open spec fn team_sum_spec(s: Seq<FantasyPlayerView>, team: Seq<char>) -> int
    decreases s.len(),
{
    if s.len() == 0 {
        0
    } else {
        let rest = team_sum_spec(s.drop_last(), team);
        if s.last().team == team {
            clip_add(rest, s.last().fantasy_points)
        } else {
            rest
        }
    }
}

/// One row of the weekly grid: each listed team's point total over the
/// given records, zero for a team with no record.
pub fn team_points_row(teams: &Vec<String>, players: &Vec<FantasyPlayer>) -> (r: Vec<i64>)
    ensures
        r@.len() == teams@.len(),
        forall|t: int|
            0 <= t < teams@.len() ==> r@[t] as int == team_sum_spec(
                players.deep_view(),
                teams.deep_view()[t],
            ),
{
    let mut r: Vec<i64> = Vec::new();
    let mut t: usize = 0;
    while t < teams.len()
        invariant
            t <= teams@.len(),
            teams.deep_view().len() == teams@.len(),
            r@.len() == t,
            forall|u: int|
                0 <= u < t ==> r@[u] as int == team_sum_spec(
                    players.deep_view(),
                    teams.deep_view()[u],
                ),
        decreases teams@.len() - t,
    {
        let team = &teams[t];
        let mut sum: i64 = 0;
        let mut i: usize = 0;
        proof {
            assert(players.deep_view().take(0) =~= Seq::<FantasyPlayerView>::empty());
            assert(teams.deep_view()[t as int] == teams@[t as int]@);
        }
        while i < players.len()
            invariant
                i <= players@.len(),
                t < teams@.len(),
                players.deep_view().len() == players@.len(),
                teams.deep_view()[t as int] == team@,
                sum as int == team_sum_spec(players.deep_view().take(i as int), team@),
            decreases players@.len() - i,
        {
            if str_eq(players[i].team.as_str(), team.as_str()) {
                sum = crate::points::add_points(sum, players[i].fantasy_points);
            }
            i += 1;
            proof {
                let dv = players.deep_view();
                assert(dv.take(i as int).drop_last() =~= dv.take(i - 1));
                assert(dv.take(i as int).last() == dv[i - 1]);
            }
        }
        proof {
            assert(players.deep_view().take(players@.len() as int) =~= players.deep_view());
        }
        r.push(sum);
        t += 1;
    }
    r
}

/// Adds two equally long point rows, entry by entry, for the weekly
/// grid's running totals.
pub fn add_rows(a: &Vec<i64>, b: &Vec<i64>) -> (r: Vec<i64>)
    requires
        a@.len() == b@.len(),
    ensures
        r@.len() == a@.len(),
        forall|i: int| 0 <= i < a@.len() ==> r@[i] as int == clip_add(a@[i] as int, b@[i] as int),
{
    let mut r: Vec<i64> = Vec::new();
    let mut i: usize = 0;
    while i < a.len()
        invariant
            i <= a@.len(),
            a@.len() == b@.len(),
            r@.len() == i,
            forall|j: int| 0 <= j < i ==> r@[j] as int == clip_add(a@[j] as int, b@[j] as int),
        decreases a@.len() - i,
    {
        r.push(crate::points::add_points(a[i], b[i]));
        i += 1;
    }
    r
}

/// Code-point order on strings: the order Rust's string comparison
/// gives, since UTF-8 byte order agrees with code-point order.
pub open spec fn str_le(a: Seq<char>, b: Seq<char>) -> bool
    decreases a.len(),
{
    if a.len() == 0 {
        true
    } else if b.len() == 0 {
        false
    } else if a[0] == b[0] {
        str_le(a.skip(1), b.skip(1))
    } else {
        (a[0] as int) < (b[0] as int)
    }
}

proof fn lemma_str_le_common_prefix(a: Seq<char>, b: Seq<char>, i: int)
    requires
        0 <= i <= a.len(),
        i <= b.len(),
        forall|j: int| 0 <= j < i ==> a[j] == b[j],
    ensures
        str_le(a, b) == str_le(a.skip(i), b.skip(i)),
    decreases i,
{
    if i == 0 {
        assert(a.skip(0) =~= a);
        assert(b.skip(0) =~= b);
    } else {
        assert(a[0] == b[0]);
        assert(forall|j: int| 0 <= j < i - 1 ==> a.skip(1)[j] == a[j + 1]);
        assert(forall|j: int| 0 <= j < i - 1 ==> b.skip(1)[j] == b[j + 1]);
        lemma_str_le_common_prefix(a.skip(1), b.skip(1), i - 1);
        assert(a.skip(1).skip(i - 1) =~= a.skip(i));
        assert(b.skip(1).skip(i - 1) =~= b.skip(i));
    }
}

/// Compares two strings in code-point order.
pub fn str_le_exec(a: &str, b: &str) -> (r: bool)
    ensures
        r == str_le(a@, b@),
{
    let alen = a.unicode_len();
    let blen = b.unicode_len();
    let mut i: usize = 0;
    while i < alen && i < blen
        invariant
            alen == a@.len(),
            blen == b@.len(),
            i <= alen,
            i <= blen,
            forall|j: int| 0 <= j < i ==> a@[j] == b@[j],
        decreases alen - i,
    {
        let ca = a.get_char(i);
        let cb = b.get_char(i);
        if ca != cb {
            proof {
                lemma_str_le_common_prefix(a@, b@, i as int);
                assert(a@.skip(i as int)[0] == a@[i as int]);
                assert(b@.skip(i as int)[0] == b@[i as int]);
            }
            return (ca as u32) < (cb as u32);
        }
        i += 1;
    }
    proof {
        lemma_str_le_common_prefix(a@, b@, i as int);
    }
    alen <= blen
}

/// The teams of the roster entries, in entry order.
pub open spec fn roster_teams(entries: Seq<crate::league::roster::RosterEntryView>) -> Seq<
    Seq<char>,
>
    decreases entries.len(),
{
    if entries.len() == 0 {
        Seq::empty()
    } else {
        roster_teams(entries.drop_last()).push(entries.last().team)
    }
}

proof fn lemma_str_le_refl(a: Seq<char>)
    ensures
        str_le(a, a),
    decreases a.len(),
{
    if a.len() > 0 {
        lemma_str_le_refl(a.skip(1));
    }
}

proof fn lemma_str_le_total(a: Seq<char>, b: Seq<char>)
    ensures
        str_le(a, b) || str_le(b, a),
    decreases a.len(),
{
    if a.len() > 0 && b.len() > 0 && a[0] == b[0] {
        lemma_str_le_total(a.skip(1), b.skip(1));
    }
}

proof fn lemma_str_le_antisym(a: Seq<char>, b: Seq<char>)
    requires
        str_le(a, b),
        str_le(b, a),
    ensures
        a == b,
    decreases a.len(),
{
    if a.len() == 0 {
        assert(b.len() == 0);
        assert(a =~= b);
    } else {
        assert(b.len() > 0);
        assert(a[0] == b[0]);
        lemma_str_le_antisym(a.skip(1), b.skip(1));
        assert(a =~= b) by {
            assert(forall|i: int| 1 <= i < a.len() ==> a[i] == a.skip(1)[i - 1]);
            assert(forall|i: int| 1 <= i < b.len() ==> b[i] == b.skip(1)[i - 1]);
        }
    }
}

proof fn lemma_str_le_trans(a: Seq<char>, b: Seq<char>, c: Seq<char>)
    requires
        str_le(a, b),
        str_le(b, c),
    ensures
        str_le(a, c),
    decreases a.len(),
{
    if a.len() == 0 {
    } else {
        assert(b.len() > 0);
        assert(c.len() > 0);
        if a[0] == b[0] && b[0] == c[0] {
            lemma_str_le_trans(a.skip(1), b.skip(1), c.skip(1));
        }
    }
}

/// Where a team name lands in the distinct ascending order: before
/// the first name ordered after it, and nowhere when it is already
/// present.
pub open spec fn insert_team_name(s: Seq<Seq<char>>, x: Seq<char>) -> Seq<Seq<char>>
    decreases s.len(),
{
    if s.len() == 0 {
        seq![x]
    } else if s[0] == x {
        s
    } else if str_le(s[0], x) {
        seq![s[0]] + insert_team_name(s.skip(1), x)
    } else {
        seq![x] + s
    }
}

/// The distinct names of the list, in ascending code-point order:
/// each name appears once however often, and wherever, the list
/// repeats it.
pub open spec fn team_name_set(s: Seq<Seq<char>>) -> Seq<Seq<char>>
    decreases s.len(),
{
    if s.len() == 0 {
        Seq::empty()
    } else {
        insert_team_name(team_name_set(s.drop_last()), s.last())
    }
}

/// Every name comes strictly before the next: sorted with no
/// duplicates.
pub open spec fn strictly_ascending(s: Seq<Seq<char>>) -> bool {
    forall|i: int, j: int| 0 <= i < j < s.len() ==> str_le(s[i], s[j]) && s[i] != s[j]
}

proof fn lemma_insert_team_elems(s: Seq<Seq<char>>, x: Seq<char>, j: int)
    requires
        0 <= j < insert_team_name(s, x).len(),
    ensures
        insert_team_name(s, x)[j] == x || s.contains(insert_team_name(s, x)[j]),
    decreases s.len(),
{
    if s.len() == 0 {
    } else if s[0] == x {
        assert(s.contains(s[j]));
    } else if str_le(s[0], x) {
        if j == 0 {
            assert(s.contains(s[0]));
        } else {
            lemma_insert_team_elems(s.skip(1), x, j - 1);
            let e = insert_team_name(s.skip(1), x)[j - 1];
            if e != x {
                let k = choose|k: int| 0 <= k < s.skip(1).len() && s.skip(1)[k] == e;
                assert(s[k + 1] == e);
            }
        }
    } else {
        if j > 0 {
            assert(s.contains(s[j - 1]));
        }
    }
}

proof fn lemma_insert_team_contains(s: Seq<Seq<char>>, x: Seq<char>, t: Seq<char>)
    ensures
        insert_team_name(s, x).contains(t) <==> (t == x || s.contains(t)),
    decreases s.len(),
{
    let ins = insert_team_name(s, x);
    if s.len() == 0 {
        if t == x {
            assert(ins[0] == t);
        }
    } else if s[0] == x {
        if t == x {
            assert(s[0] == t);
        }
    } else if str_le(s[0], x) {
        lemma_insert_team_contains(s.skip(1), x, t);
        let tail = insert_team_name(s.skip(1), x);
        if ins.contains(t) {
            let j = choose|j: int| 0 <= j < ins.len() && ins[j] == t;
            if j == 0 {
                assert(s[0] == t);
            } else {
                assert(tail[j - 1] == t);
                assert(tail.contains(t));
                if t != x {
                    let k = choose|k: int| 0 <= k < s.skip(1).len() && s.skip(1)[k] == t;
                    assert(s[k + 1] == t);
                }
            }
        }
        if t == x {
            assert(tail.contains(t));
            let k = choose|k: int| 0 <= k < tail.len() && tail[k] == t;
            assert(ins[k + 1] == t);
        }
        if s.contains(t) {
            let m = choose|m: int| 0 <= m < s.len() && s[m] == t;
            if m == 0 {
                assert(ins[0] == t);
            } else {
                assert(s.skip(1)[m - 1] == t);
                assert(s.skip(1).contains(t));
                assert(tail.contains(t));
                let k = choose|k: int| 0 <= k < tail.len() && tail[k] == t;
                assert(ins[k + 1] == t);
            }
        }
    } else {
        if ins.contains(t) {
            let j = choose|j: int| 0 <= j < ins.len() && ins[j] == t;
            if j > 0 {
                assert(s[j - 1] == t);
            }
        }
        if t == x {
            assert(ins[0] == t);
        }
        if s.contains(t) {
            let m = choose|m: int| 0 <= m < s.len() && s[m] == t;
            assert(ins[m + 1] == t);
        }
    }
}

proof fn lemma_insert_team_ascending(s: Seq<Seq<char>>, x: Seq<char>)
    requires
        strictly_ascending(s),
    ensures
        strictly_ascending(insert_team_name(s, x)),
    decreases s.len(),
{
    if s.len() == 0 {
    } else if s[0] == x {
    } else if str_le(s[0], x) {
        assert(forall|j: int| 0 <= j < s.len() - 1 ==> s.skip(1)[j] == s[j + 1]);
        lemma_insert_team_ascending(s.skip(1), x);
        let ins = insert_team_name(s.skip(1), x);
        let out = seq![s[0]] + ins;
        assert forall|j: int| 0 <= j < ins.len() implies str_le(s[0], ins[j]) && s[0]
            != ins[j] by {
            lemma_insert_team_elems(s.skip(1), x, j);
            if ins[j] != x {
                let k = choose|k: int| 0 <= k < s.skip(1).len() && s.skip(1)[k] == ins[j];
                assert(s[k + 1] == ins[j]);
            }
        }
        assert forall|i: int, j: int|
            0 <= i < j < out.len() implies str_le(out[i], out[j]) && out[i] != out[j] by {
            if i > 0 {
                assert(out[i] == ins[i - 1] && out[j] == ins[j - 1]);
            } else {
                assert(out[j] == ins[j - 1]);
            }
        }
    } else {
        lemma_str_le_total(s[0], x);
        assert(x != s[0]) by {
            if x == s[0] {
                lemma_str_le_refl(s[0]);
            }
        }
        let out = seq![x] + s;
        assert forall|i: int, j: int|
            0 <= i < j < out.len() implies str_le(out[i], out[j]) && out[i] != out[j] by {
            if i > 0 {
                assert(out[i] == s[i - 1] && out[j] == s[j - 1]);
            } else {
                assert(out[j] == s[j - 1]);
                if j > 1 {
                    assert(str_le(s[0], s[j - 1]));
                    lemma_str_le_trans(x, s[0], s[j - 1]);
                }
            }
        }
    }
}

proof fn lemma_team_name_set_ascending(s: Seq<Seq<char>>)
    ensures
        strictly_ascending(team_name_set(s)),
    decreases s.len(),
{
    if s.len() > 0 {
        lemma_team_name_set_ascending(s.drop_last());
        lemma_insert_team_ascending(team_name_set(s.drop_last()), s.last());
    }
}

proof fn lemma_team_name_set_contains(s: Seq<Seq<char>>, t: Seq<char>)
    ensures
        team_name_set(s).contains(t) <==> s.contains(t),
    decreases s.len(),
{
    if s.len() == 0 {
    } else {
        lemma_team_name_set_contains(s.drop_last(), t);
        lemma_insert_team_contains(team_name_set(s.drop_last()), s.last(), t);
        assert(s.contains(t) <==> (t == s.last() || s.drop_last().contains(t))) by {
            if s.contains(t) {
                let j = choose|j: int| 0 <= j < s.len() && s[j] == t;
                if j < s.len() - 1 {
                    assert(s.drop_last()[j] == t);
                }
            }
            if s.drop_last().contains(t) {
                let j = choose|j: int| 0 <= j < s.drop_last().len() && s.drop_last()[j] == t;
                assert(s[j] == t);
            }
            if t == s.last() {
                assert(s[s.len() - 1] == t);
            }
        }
    }
}

proof fn lemma_insert_team_dup(s: Seq<Seq<char>>, x: Seq<char>, k: int)
    requires
        0 <= k < s.len(),
        forall|j: int| 0 <= j < k ==> str_le(s[j], x) && s[j] != x,
        s[k] == x,
    ensures
        insert_team_name(s, x) == s,
    decreases k,
{
    if k == 0 {
    } else {
        assert(forall|j: int| 0 <= j < k - 1 ==> s.skip(1)[j] == s[j + 1]);
        assert(s.skip(1)[k - 1] == s[k]);
        lemma_insert_team_dup(s.skip(1), x, k - 1);
        assert(seq![s[0]] + s.skip(1) =~= s);
    }
}

proof fn lemma_insert_team_split(s: Seq<Seq<char>>, x: Seq<char>, k: int)
    requires
        0 <= k <= s.len(),
        forall|j: int| 0 <= j < k ==> str_le(s[j], x) && s[j] != x,
        k < s.len() ==> !str_le(s[k], x),
    ensures
        insert_team_name(s, x) == s.take(k) + seq![x] + s.skip(k),
    decreases k,
{
    if k == 0 {
        if s.len() > 0 {
            assert(s[0] != x) by {
                if s[0] == x {
                    lemma_str_le_refl(x);
                }
            }
        }
        assert(insert_team_name(s, x) =~= s.take(0) + seq![x] + s.skip(0));
    } else {
        assert(forall|j: int| 0 <= j < k - 1 ==> s.skip(1)[j] == s[j + 1]);
        if k < s.len() {
            assert(s.skip(1)[k - 1] == s[k]);
        }
        lemma_insert_team_split(s.skip(1), x, k - 1);
        assert(seq![s[0]] + (s.skip(1).take(k - 1) + seq![x] + s.skip(1).skip(k - 1)) =~= s.take(k)
            + seq![x] + s.skip(k));
    }
}

/// The fantasy teams of a roster for the weekly grid: each roster
/// team exactly once, in ascending code-point order, however often
/// and wherever the roster repeats a team. The list is strictly
/// ascending (so free of duplicates) and holds exactly the roster's
/// teams.
pub fn teams_of_roster(r: &crate::league::roster::Roster) -> (teams: Vec<String>)
    ensures
        teams.deep_view() == team_name_set(roster_teams(r@)),
        strictly_ascending(teams.deep_view()),
        forall|t: Seq<char>|
            #[trigger] teams.deep_view().contains(t) <==> roster_teams(r@).contains(t),
{
    let mut teams: Vec<String> = Vec::new();
    let mut i: usize = 0;
    proof {
        assert(r@.take(0) =~= Seq::<crate::league::roster::RosterEntryView>::empty());
        assert(teams.deep_view() =~= team_name_set(roster_teams(r@.take(0))));
    }
    while i < r.players.len()
        invariant
            i <= r.players@.len(),
            r@.len() == r.players@.len(),
            teams.deep_view() == team_name_set(roster_teams(r@.take(i as int))),
        decreases r.players@.len() - i,
    {
        let x = r.players[i].team.clone();
        proof {
            assert(r@[i as int] == r.players@[i as int]@);
        }
        let ghost tv = teams.deep_view();
        let mut k: usize = 0;
        let mut dup: bool = false;
        let mut stop: bool = false;
        while k < teams.len() && !dup && !stop
            invariant
                k <= teams@.len(),
                i < r.players@.len(),
                teams.deep_view().len() == teams@.len(),
                x@ == r@[i as int].team,
                teams.deep_view() == tv,
                forall|j: int|
                    0 <= j < k ==> str_le(teams.deep_view()[j], x@) && teams.deep_view()[j] != x@,
                dup ==> k < teams@.len() && teams.deep_view()[k as int] == x@,
                stop ==> k < teams@.len() && !str_le(teams.deep_view()[k as int], x@),
            decreases teams@.len() - k + (if dup || stop {
                0int
            } else {
                1int
            }),
        {
            proof {
                assert(teams.deep_view()[k as int] == teams@[k as int]@);
            }
            if str_eq(teams[k].as_str(), x.as_str()) {
                dup = true;
            } else if str_le_exec(teams[k].as_str(), x.as_str()) {
                k += 1;
            } else {
                stop = true;
            }
        }
        if dup {
            proof {
                lemma_insert_team_dup(teams.deep_view(), x@, k as int);
            }
        } else {
            proof {
                lemma_insert_team_split(teams.deep_view(), x@, k as int);
            }
            teams.insert(k, x);
            proof {
                assert(teams.deep_view() =~= tv.take(k as int) + seq![r@[i as int].team]
                    + tv.skip(k as int));
            }
        }
        i += 1;
        proof {
            let ts = roster_teams(r@.take(i as int));
            assert(r@.take(i as int).drop_last() =~= r@.take(i - 1));
            assert(ts.drop_last() =~= roster_teams(r@.take(i - 1)));
            assert(ts.last() == r@[i - 1].team);
            assert(teams.deep_view() =~= team_name_set(ts));
        }
    }
    proof {
        assert(r@.take(r.players@.len() as int) =~= r@);
        lemma_team_name_set_ascending(roster_teams(r@));
        assert forall|t: Seq<char>|
            #[trigger] teams.deep_view().contains(t) <==> roster_teams(r@).contains(t) by {
            lemma_team_name_set_contains(roster_teams(r@), t);
        }
    }
    teams
}

} // verus!
