//! Raw per-game statistics and the fantasy aggregation engine:
//! role classification, point computation, cross-date merging,
//! roster matching and ranking.

use vstd::prelude::*;

use crate::league::roster::{PlayerType, Roster};
use crate::league::scoring::{BatterScoringRule, PitcherScoringRule, ScoringRule};
use crate::points::{add_points, clip_add, term_units, weight_ok};
use crate::text::{lower_of, lowercase, str_eq};

pub mod output;
pub mod schedule;
pub mod sportradar;

verus! {

/// Largest magnitude the innings-pitched term can have: a third of an
/// inning per count step, with both fields at their `u32` limits.
pub const MAX_IP_TERM: i64 = 171_798_691_800_000_000;

/// Innings pitched in baseball's non-decimal notation: `whole` full
/// innings and `thirds` extra outs. Well-formed values keep `thirds`
/// at most 2; the merge renormalizes an overflowing fraction into the
/// next whole inning.
#[derive(Clone, Copy, PartialEq, Eq, Structural, Debug)]
pub struct InningsPitched {
    pub whole: u32,
    pub thirds: u32,
}

impl InningsPitched {
    /// A fractional part is at most two thirds.
    pub open spec fn wf(&self) -> bool {
        self.thirds <= 2
    }

    /// Builds a value, rejecting a fractional part above two thirds,
    /// which the notation cannot mean.
    pub fn new(whole: u32, thirds: u32) -> (r: Option<InningsPitched>)
        ensures
            r is Some <==> thirds <= 2,
            r is Some ==> r == Some(InningsPitched { whole, thirds }),
    {
        if thirds <= 2 {
            Some(InningsPitched { whole, thirds })
        } else {
            None
        }
    }
}

/// Per-game batting counts.
#[derive(Clone, Copy, Debug)]
pub struct BatterStats {
    pub at_bats: u32,
    pub runs: u32,
    pub hits: u32,
    pub singles: u32,
    pub doubles: u32,
    pub triples: u32,
    pub home_runs: u32,
    pub runs_batted_in: u32,
    pub sacrifice_hits: u32,
    pub stolen_bases: u32,
    pub caught_stealing: u32,
    pub walks: u32,
    pub intentional_walks: u32,
    pub hit_by_pitch: u32,
    pub strikeouts: u32,
    pub ground_into_double_play: u32,
    pub total_bases: u32,
}

/// Per-game pitching counts.
#[derive(Clone, Copy, Debug)]
pub struct PitcherStats {
    pub innings_pitched: InningsPitched,
    pub wins: u32,
    pub losses: u32,
    pub complete_games: u32,
    pub shutouts: u32,
    pub saves: u32,
    pub outs: u32,
    pub hits: u32,
    pub earned_runs: u32,
    pub home_runs: u32,
    pub walks: u32,
    pub intentional_walks: u32,
    pub hit_batters: u32,
    pub strikeouts: u32,
    pub stolen_bases_allowed: u32,
    pub batters_grounded_into_double_plays: u32,
    pub total_bases_allowed: u32,
}

/// One raw stat record: a player on one date, with at most one of the
/// two stat blocks populated.
#[derive(Debug)]
pub struct Player {
    pub name: String,
    pub position: String,
    pub primary_position: String,
    pub batter_stats: Option<BatterStats>,
    pub pitcher_stats: Option<PitcherStats>,
}

/// The mathematical shape of a raw stat record.
pub ghost struct PlayerView {
    pub name: Seq<char>,
    pub position: Seq<char>,
    pub primary_position: Seq<char>,
    pub batter_stats: Option<BatterStats>,
    pub pitcher_stats: Option<PitcherStats>,
}

impl View for Player {
    type V = PlayerView;

    open spec fn view(&self) -> PlayerView {
        PlayerView {
            name: self.name@,
            position: self.position@,
            primary_position: self.primary_position@,
            batter_stats: self.batter_stats,
            pitcher_stats: self.pitcher_stats,
        }
    }
}

impl DeepView for Player {
    type V = PlayerView;

    open spec fn deep_view(&self) -> PlayerView {
        self.view()
    }
}

/// A scored record assigned to a fantasy team (or the free-agent
/// sentinel), with points in units of `points::UNITS_PER_POINT`.
#[derive(Debug)]
pub struct FantasyPlayer {
    pub team: String,
    pub player: Player,
    pub fantasy_points: i64,
}

/// The mathematical shape of a scored record.
pub ghost struct FantasyPlayerView {
    pub team: Seq<char>,
    pub player: PlayerView,
    pub fantasy_points: int,
}

impl View for FantasyPlayer {
    type V = FantasyPlayerView;

    open spec fn view(&self) -> FantasyPlayerView {
        FantasyPlayerView {
            team: self.team@,
            player: self.player@,
            fantasy_points: self.fantasy_points as int,
        }
    }
}

impl DeepView for FantasyPlayer {
    type V = FantasyPlayerView;

    open spec fn deep_view(&self) -> FantasyPlayerView {
        self.view()
    }
}

/// A primary position means a pitcher exactly when it is SP or RP.
pub open spec fn is_pitcher_pos(pos: Seq<char>) -> bool {
    pos == "SP"@ || pos == "RP"@
}

impl Player {
    /// Role classification: the record belongs to `player_type` going
    /// by its primary position alone (SP or RP means pitcher, anything
    /// else batter).
    pub fn is_position_of(&self, player_type: PlayerType) -> (r: bool)
        ensures
            r == if player_type == PlayerType::Pitcher {
                is_pitcher_pos(self@.primary_position)
            } else {
                !is_pitcher_pos(self@.primary_position)
            },
    {
        let pitcher_pos = str_eq(self.primary_position.as_str(), "SP") || str_eq(
            self.primary_position.as_str(),
            "RP",
        );
        match player_type {
            PlayerType::Pitcher => pitcher_pos,
            PlayerType::Batter => !pitcher_pos,
        }
    }

    /// An owned copy with the same fields.
    pub fn duplicate(&self) -> (r: Player)
        ensures
            r@ == self@,
    {
        Player {
            name: self.name.clone(),
            position: self.position.clone(),
            primary_position: self.primary_position.clone(),
            batter_stats: self.batter_stats,
            pitcher_stats: self.pitcher_stats,
        }
    }
}

impl FantasyPlayer {
    /// An owned copy with the same fields.
    pub fn duplicate(&self) -> (r: FantasyPlayer)
        ensures
            r@ == self@,
    {
        FantasyPlayer {
            team: self.team.clone(),
            player: self.player.duplicate(),
            fantasy_points: self.fantasy_points,
        }
    }
}

/// The batter's points in units: every count weighted by its
/// centipoint weight.
pub open spec fn batter_points_spec(b: BatterStats, r: BatterScoringRule) -> int {
    term_units(b.at_bats as int, r.at_bats as int) + term_units(b.runs as int, r.runs as int)
        + term_units(b.hits as int, r.hits as int) + term_units(
        b.singles as int,
        r.singles as int,
    ) + term_units(b.doubles as int, r.doubles as int) + term_units(
        b.triples as int,
        r.triples as int,
    ) + term_units(b.home_runs as int, r.home_runs as int) + term_units(
        b.runs_batted_in as int,
        r.runs_batted_in as int,
    ) + term_units(b.sacrifice_hits as int, r.sacrifice_hits as int) + term_units(
        b.stolen_bases as int,
        r.stolen_bases as int,
    ) + term_units(b.caught_stealing as int, r.caught_stealing as int) + term_units(
        b.walks as int,
        r.walks as int,
    ) + term_units(b.intentional_walks as int, r.intentional_walks as int) + term_units(
        b.hit_by_pitch as int,
        r.hit_by_pitch as int,
    ) + term_units(b.strikeouts as int, r.strikeouts as int) + term_units(
        b.ground_into_double_play as int,
        r.ground_into_double_play as int,
    ) + term_units(b.total_bases as int, r.total_bases as int)
}

/// The innings-pitched term in units: whole innings count fully, each
/// extra out a third of the weight.
pub open spec fn inning_points_spec(ip: InningsPitched, weight: int) -> int {
    ip.whole as int * weight * 3 + ip.thirds as int * weight
}

/// The pitcher's points in units: the innings term plus every other
/// count weighted by its centipoint weight.
pub open spec fn pitcher_points_spec(p: PitcherStats, r: PitcherScoringRule) -> int {
    inning_points_spec(p.innings_pitched, r.innings_pitched as int) + term_units(
        p.wins as int,
        r.wins as int,
    ) + term_units(p.losses as int, r.losses as int) + term_units(
        p.complete_games as int,
        r.complete_games as int,
    ) + term_units(p.shutouts as int, r.shutouts as int) + term_units(
        p.saves as int,
        r.saves as int,
    ) + term_units(p.outs as int, r.outs as int) + term_units(p.hits as int, r.hits as int)
        + term_units(p.earned_runs as int, r.earned_runs as int) + term_units(
        p.home_runs as int,
        r.home_runs as int,
    ) + term_units(p.walks as int, r.walks as int) + term_units(
        p.intentional_walks as int,
        r.intentional_walks as int,
    ) + term_units(p.hit_batters as int, r.hit_batters as int) + term_units(
        p.strikeouts as int,
        r.strikeouts as int,
    ) + term_units(p.stolen_bases_allowed as int, r.stolen_bases_allowed as int) + term_units(
        p.batters_grounded_into_double_plays as int,
        r.batters_grounded_into_double_plays as int,
    ) + term_units(p.total_bases_allowed as int, r.total_bases_allowed as int)
}

/// A record's points: its batter block if it has one, else its pitcher
/// block, else zero.
pub open spec fn fantasy_points_spec(p: PlayerView, s: &ScoringRule) -> int {
    match p.batter_stats {
        Some(b) => batter_points_spec(b, s.batter),
        None => match p.pitcher_stats {
            Some(ps) => pitcher_points_spec(ps, s.pitcher),
            None => 0,
        },
    }
}

/// The innings-pitched score: whole innings times the weight, plus a
/// third of the weight per extra out. Exact fixed-point arithmetic, no
/// decimal approximation.
pub fn inning_score(ip: InningsPitched, weight: i64) -> (r: i64)
    requires
        weight_ok(weight as int),
    ensures
        r as int == inning_points_spec(ip, weight as int),
        -MAX_IP_TERM <= r <= MAX_IP_TERM,
{
    let outs: i64 = (ip.whole as i64) * 3 + (ip.thirds as i64);
    proof {
        assert(outs as int * weight as int <= 17179869180 * crate::points::MAX_WEIGHT as int
            && outs as int * weight as int >= -(17179869180 * crate::points::MAX_WEIGHT as int))
            by (nonlinear_arith)
            requires
                0 <= outs as int <= 17179869180,
                weight_ok(weight as int),
        ;
        assert(outs as int * weight as int == ip.whole as int * weight as int * 3 + ip.thirds
            as int * weight as int) by (nonlinear_arith)
            requires
                outs as int == ip.whole as int * 3 + ip.thirds as int,
        ;
    }
    outs * weight
}

/// Fantasy points of one record under a scoring rule, in units: the
/// weighted sum of whichever stat block the record carries.
pub fn get_fantasy_points(p: &Player, s: &ScoringRule) -> (r: i64)
    requires
        s.wf(),
    ensures
        r as int == fantasy_points_spec(p@, s),
{
    if let Some(b) = p.batter_stats {
        let r = crate::points::count_units(b.at_bats, s.batter.at_bats) + crate::points::count_units(
            b.runs,
            s.batter.runs,
        ) + crate::points::count_units(b.hits, s.batter.hits) + crate::points::count_units(
            b.singles,
            s.batter.singles,
        ) + crate::points::count_units(b.doubles, s.batter.doubles) + crate::points::count_units(
            b.triples,
            s.batter.triples,
        ) + crate::points::count_units(b.home_runs, s.batter.home_runs)
            + crate::points::count_units(b.runs_batted_in, s.batter.runs_batted_in)
            + crate::points::count_units(b.sacrifice_hits, s.batter.sacrifice_hits)
            + crate::points::count_units(b.stolen_bases, s.batter.stolen_bases)
            + crate::points::count_units(b.caught_stealing, s.batter.caught_stealing)
            + crate::points::count_units(b.walks, s.batter.walks) + crate::points::count_units(
            b.intentional_walks,
            s.batter.intentional_walks,
        ) + crate::points::count_units(b.hit_by_pitch, s.batter.hit_by_pitch)
            + crate::points::count_units(b.strikeouts, s.batter.strikeouts)
            + crate::points::count_units(
            b.ground_into_double_play,
            s.batter.ground_into_double_play,
        ) + crate::points::count_units(b.total_bases, s.batter.total_bases);
        return r;
    }
    if let Some(ps) = p.pitcher_stats {
        let r = inning_score(ps.innings_pitched, s.pitcher.innings_pitched)
            + crate::points::count_units(ps.wins, s.pitcher.wins) + crate::points::count_units(
            ps.losses,
            s.pitcher.losses,
        ) + crate::points::count_units(ps.complete_games, s.pitcher.complete_games)
            + crate::points::count_units(ps.shutouts, s.pitcher.shutouts)
            + crate::points::count_units(ps.saves, s.pitcher.saves) + crate::points::count_units(
            ps.outs,
            s.pitcher.outs,
        ) + crate::points::count_units(ps.hits, s.pitcher.hits) + crate::points::count_units(
            ps.earned_runs,
            s.pitcher.earned_runs,
        ) + crate::points::count_units(ps.home_runs, s.pitcher.home_runs)
            + crate::points::count_units(ps.walks, s.pitcher.walks) + crate::points::count_units(
            ps.intentional_walks,
            s.pitcher.intentional_walks,
        ) + crate::points::count_units(ps.hit_batters, s.pitcher.hit_batters)
            + crate::points::count_units(ps.strikeouts, s.pitcher.strikeouts)
            + crate::points::count_units(ps.stolen_bases_allowed, s.pitcher.stolen_bases_allowed)
            + crate::points::count_units(
            ps.batters_grounded_into_double_plays,
            s.pitcher.batters_grounded_into_double_plays,
        ) + crate::points::count_units(ps.total_bases_allowed, s.pitcher.total_bases_allowed);
        return r;
    }
    0
}

/// `u32` addition saturating at the type's limit.
pub open spec fn sat32(a: int, b: int) -> u32 {
    if a + b > u32::MAX as int {
        u32::MAX
    } else {
        (a + b) as u32
    }
}

/// Adds two counts, saturating at the `u32` limit.
pub fn sat_add_u32(a: u32, b: u32) -> (r: u32)
    ensures
        r == sat32(a as int, b as int),
{
    if a > u32::MAX - b {
        u32::MAX
    } else {
        a + b
    }
}

impl BatterStats {
    /// The field-by-field sum of two batting records.
    pub open spec fn add_spec(a: BatterStats, b: BatterStats) -> BatterStats {
        BatterStats {
            at_bats: sat32(a.at_bats as int, b.at_bats as int),
            runs: sat32(a.runs as int, b.runs as int),
            hits: sat32(a.hits as int, b.hits as int),
            singles: sat32(a.singles as int, b.singles as int),
            doubles: sat32(a.doubles as int, b.doubles as int),
            triples: sat32(a.triples as int, b.triples as int),
            home_runs: sat32(a.home_runs as int, b.home_runs as int),
            runs_batted_in: sat32(a.runs_batted_in as int, b.runs_batted_in as int),
            sacrifice_hits: sat32(a.sacrifice_hits as int, b.sacrifice_hits as int),
            stolen_bases: sat32(a.stolen_bases as int, b.stolen_bases as int),
            caught_stealing: sat32(a.caught_stealing as int, b.caught_stealing as int),
            walks: sat32(a.walks as int, b.walks as int),
            intentional_walks: sat32(a.intentional_walks as int, b.intentional_walks as int),
            hit_by_pitch: sat32(a.hit_by_pitch as int, b.hit_by_pitch as int),
            strikeouts: sat32(a.strikeouts as int, b.strikeouts as int),
            ground_into_double_play: sat32(
                a.ground_into_double_play as int,
                b.ground_into_double_play as int,
            ),
            total_bases: sat32(a.total_bases as int, b.total_bases as int),
        }
    }

    /// Combines two batting records for the same player on different
    /// dates: every counting field adds.
    pub fn add(self, other: BatterStats) -> (r: BatterStats)
        ensures
            r == BatterStats::add_spec(self, other),
    {
        BatterStats {
            at_bats: sat_add_u32(self.at_bats, other.at_bats),
            runs: sat_add_u32(self.runs, other.runs),
            hits: sat_add_u32(self.hits, other.hits),
            singles: sat_add_u32(self.singles, other.singles),
            doubles: sat_add_u32(self.doubles, other.doubles),
            triples: sat_add_u32(self.triples, other.triples),
            home_runs: sat_add_u32(self.home_runs, other.home_runs),
            runs_batted_in: sat_add_u32(self.runs_batted_in, other.runs_batted_in),
            sacrifice_hits: sat_add_u32(self.sacrifice_hits, other.sacrifice_hits),
            stolen_bases: sat_add_u32(self.stolen_bases, other.stolen_bases),
            caught_stealing: sat_add_u32(self.caught_stealing, other.caught_stealing),
            walks: sat_add_u32(self.walks, other.walks),
            intentional_walks: sat_add_u32(self.intentional_walks, other.intentional_walks),
            hit_by_pitch: sat_add_u32(self.hit_by_pitch, other.hit_by_pitch),
            strikeouts: sat_add_u32(self.strikeouts, other.strikeouts),
            ground_into_double_play: sat_add_u32(
                self.ground_into_double_play,
                other.ground_into_double_play,
            ),
            total_bases: sat_add_u32(self.total_bases, other.total_bases),
        }
    }
}

/// The merge of two innings-pitched values: thirds add, and a
/// fractional part past two thirds rolls into the next whole inning
/// with three thirds taken back.
pub open spec fn ip_merge_spec(a: InningsPitched, b: InningsPitched) -> InningsPitched {
    let t = sat32(a.thirds as int, b.thirds as int);
    let w = sat32(a.whole as int, b.whole as int);
    if t > 2 {
        InningsPitched { whole: sat32(w as int, 1), thirds: (t - 3) as u32 }
    } else {
        InningsPitched { whole: w, thirds: t }
    }
}

impl InningsPitched {
    /// Accumulates innings pitched across dates, renormalizing the
    /// base-three fractional part.
    pub fn merge(self, other: InningsPitched) -> (r: InningsPitched)
        ensures
            r == ip_merge_spec(self, other),
            self.wf() && other.wf() ==> r.wf(),
    {
        let t = sat_add_u32(self.thirds, other.thirds);
        let w = sat_add_u32(self.whole, other.whole);
        if t > 2 {
            InningsPitched { whole: sat_add_u32(w, 1), thirds: t - 3 }
        } else {
            InningsPitched { whole: w, thirds: t }
        }
    }
}

impl PitcherStats {
    /// The field-by-field sum of two pitching records, with the
    /// innings-pitched renormalization.
    pub open spec fn add_spec(a: PitcherStats, b: PitcherStats) -> PitcherStats {
        PitcherStats {
            innings_pitched: ip_merge_spec(a.innings_pitched, b.innings_pitched),
            wins: sat32(a.wins as int, b.wins as int),
            losses: sat32(a.losses as int, b.losses as int),
            complete_games: sat32(a.complete_games as int, b.complete_games as int),
            shutouts: sat32(a.shutouts as int, b.shutouts as int),
            saves: sat32(a.saves as int, b.saves as int),
            outs: sat32(a.outs as int, b.outs as int),
            hits: sat32(a.hits as int, b.hits as int),
            earned_runs: sat32(a.earned_runs as int, b.earned_runs as int),
            home_runs: sat32(a.home_runs as int, b.home_runs as int),
            walks: sat32(a.walks as int, b.walks as int),
            intentional_walks: sat32(a.intentional_walks as int, b.intentional_walks as int),
            hit_batters: sat32(a.hit_batters as int, b.hit_batters as int),
            strikeouts: sat32(a.strikeouts as int, b.strikeouts as int),
            stolen_bases_allowed: sat32(
                a.stolen_bases_allowed as int,
                b.stolen_bases_allowed as int,
            ),
            batters_grounded_into_double_plays: sat32(
                a.batters_grounded_into_double_plays as int,
                b.batters_grounded_into_double_plays as int,
            ),
            total_bases_allowed: sat32(a.total_bases_allowed as int, b.total_bases_allowed as int),
        }
    }

    /// Combines two pitching records for the same player on different
    /// dates: innings pitched renormalize, every other field adds.
    pub fn add(self, other: PitcherStats) -> (r: PitcherStats)
        ensures
            r == PitcherStats::add_spec(self, other),
    {
        PitcherStats {
            innings_pitched: self.innings_pitched.merge(other.innings_pitched),
            wins: sat_add_u32(self.wins, other.wins),
            losses: sat_add_u32(self.losses, other.losses),
            complete_games: sat_add_u32(self.complete_games, other.complete_games),
            shutouts: sat_add_u32(self.shutouts, other.shutouts),
            saves: sat_add_u32(self.saves, other.saves),
            outs: sat_add_u32(self.outs, other.outs),
            hits: sat_add_u32(self.hits, other.hits),
            earned_runs: sat_add_u32(self.earned_runs, other.earned_runs),
            home_runs: sat_add_u32(self.home_runs, other.home_runs),
            walks: sat_add_u32(self.walks, other.walks),
            intentional_walks: sat_add_u32(self.intentional_walks, other.intentional_walks),
            hit_batters: sat_add_u32(self.hit_batters, other.hit_batters),
            strikeouts: sat_add_u32(self.strikeouts, other.strikeouts),
            stolen_bases_allowed: sat_add_u32(
                self.stolen_bases_allowed,
                other.stolen_bases_allowed,
            ),
            batters_grounded_into_double_plays: sat_add_u32(
                self.batters_grounded_into_double_plays,
                other.batters_grounded_into_double_plays,
            ),
            total_bases_allowed: sat_add_u32(self.total_bases_allowed, other.total_bases_allowed),
        }
    }
}

/// The merged player of two records with the same key: whichever stat
/// block the accumulator carries absorbs the matching block of the
/// newcomer; a missing matching block leaves the accumulator alone.
pub open spec fn merge_player_spec(a: PlayerView, b: PlayerView) -> PlayerView {
    match a.pitcher_stats {
        Some(ps) => match b.pitcher_stats {
            Some(qs) => PlayerView {
                pitcher_stats: Some(PitcherStats::add_spec(ps, qs)),
                ..a
            },
            None => a,
        },
        None => match a.batter_stats {
            Some(bs) => match b.batter_stats {
                Some(cs) => PlayerView { batter_stats: Some(BatterStats::add_spec(bs, cs)), ..a },
                None => a,
            },
            None => a,
        },
    }
}

/// The merge of two scored records with the same key: stats combine,
/// fantasy points add (saturating), team and identity stay with the
/// accumulator.
pub open spec fn combine_spec(a: FantasyPlayerView, b: FantasyPlayerView) -> FantasyPlayerView {
    FantasyPlayerView {
        team: a.team,
        player: merge_player_spec(a.player, b.player),
        fantasy_points: clip_add(a.fantasy_points, b.fantasy_points),
    }
}

impl FantasyPlayer {
    /// Folds another record for the same (name, primary position) into
    /// this accumulator: stat blocks combine and points add.
    pub fn add_stats(&mut self, other: FantasyPlayer)
        ensures
            final (self)@ == combine_spec(old(self)@, other@),
    {
        if let Some(ps) = self.player.pitcher_stats {
            if let Some(qs) = other.player.pitcher_stats {
                self.player.pitcher_stats = Some(ps.add(qs));
            }
        } else if let Some(bs) = self.player.batter_stats {
            if let Some(cs) = other.player.batter_stats {
                self.player.batter_stats = Some(bs.add(cs));
            }
        }
        self.fantasy_points = add_points(self.fantasy_points, other.fantasy_points);
    }
}

/// A roster entry matches a record when the names agree ignoring case
/// and the entry's role agrees with the record's derived role.
pub open spec fn matches_entry(e: crate::league::roster::RosterEntryView, p: PlayerView) -> bool {
    lower_of(e.name) == lower_of(p.name) && (e.role == PlayerType::Pitcher <==> is_pitcher_pos(
        p.primary_position,
    ))
}

/// The index of the first roster entry matching the record, or -1.
pub open spec fn find_entry(
    entries: Seq<crate::league::roster::RosterEntryView>,
    p: PlayerView,
) -> int
    decreases entries.len(),
{
    if entries.len() == 0 {
        -1
    } else if matches_entry(entries[0], p) {
        0
    } else {
        let r = find_entry(entries.skip(1), p);
        if r < 0 {
            -1
        } else {
            r + 1
        }
    }
}

proof fn lemma_find_entry_at(
    entries: Seq<crate::league::roster::RosterEntryView>,
    p: PlayerView,
    i: int,
)
    requires
        0 <= i < entries.len(),
        matches_entry(entries[i], p),
        forall|j: int| 0 <= j < i ==> !matches_entry(entries[j], p),
    ensures
        find_entry(entries, p) == i,
    decreases i,
{
    if i == 0 {
    } else {
        assert(!matches_entry(entries[0], p));
        assert(entries.skip(1)[i - 1] == entries[i]);
        assert(forall|j: int| 0 <= j < i - 1 ==> entries.skip(1)[j] == entries[j + 1]);
        lemma_find_entry_at(entries.skip(1), p, i - 1);
    }
}

proof fn lemma_find_entry_none(entries: Seq<crate::league::roster::RosterEntryView>, p: PlayerView)
    requires
        forall|j: int| 0 <= j < entries.len() ==> !matches_entry(entries[j], p),
    ensures
        find_entry(entries, p) == -1,
    decreases entries.len(),
{
    if entries.len() == 0 {
    } else {
        assert(forall|j: int| 0 <= j < entries.len() - 1 ==> entries.skip(1)[j] == entries[j + 1]);
        lemma_find_entry_none(entries.skip(1), p);
    }
}

/// Role scoping of the match: whatever the names, an entry matches a
/// record only when its rostered role is the record's derived role, so
/// a pitcher-position record never matches a batter entry.
pub proof fn lemma_match_role_scoped(e: crate::league::roster::RosterEntryView, p: PlayerView)
    ensures
        matches_entry(e, p) && is_pitcher_pos(p.primary_position) ==> e.role
            == PlayerType::Pitcher,
        matches_entry(e, p) && !is_pitcher_pos(p.primary_position) ==> e.role
            == PlayerType::Batter,
{
}

/// The team of the first roster entry whose name matches the record's
/// name ignoring case and whose role matches the record's derived
/// role; `None` when no entry matches.
pub fn roster_team_for(r: &Roster, p: &Player) -> (t: Option<String>)
    ensures
        t is Some <==> find_entry(r@, p@) >= 0,
        t matches Some(team) ==> team@ == r@[find_entry(r@, p@)].team,
{
    let p_lower = lowercase(p.name.as_str());
    let mut i: usize = 0;
    while i < r.players.len()
        invariant
            r@.len() == r.players@.len(),
            i <= r.players@.len(),
            p_lower@ == lower_of(p@.name),
            forall|j: int| 0 <= j < i ==> !matches_entry(r@[j], p@),
        decreases r.players@.len() - i,
    {
        let e = &r.players[i];
        let e_lower = lowercase(e.name.as_str());
        let name_hit = e_lower == p_lower;
        let role_hit = p.is_position_of(e.role);
        proof {
            assert(r@[i as int] == r.players@[i as int]@);
        }
        if name_hit && role_hit {
            proof {
                assert(matches_entry(r@[i as int], p@));
                lemma_find_entry_at(r@, p@, i as int);
            }
            return Some(e.team.clone());
        }
        proof {
            if e.role == PlayerType::Pitcher {
                assert(!matches_entry(r@[i as int], p@));
            } else {
                assert(e.role == PlayerType::Batter);
                assert(!matches_entry(r@[i as int], p@));
            }
        }
        i += 1;
    }
    proof {
        lemma_find_entry_none(r@, p@);
    }
    None
}

/// The scored record for one kept raw record: the matched team (or the
/// free-agent sentinel) and the record's fantasy points.
pub open spec fn scored_player_spec(
    entries: Seq<crate::league::roster::RosterEntryView>,
    s: &ScoringRule,
    p: PlayerView,
) -> FantasyPlayerView {
    let idx = find_entry(entries, p);
    FantasyPlayerView {
        team: if idx >= 0 {
            entries[idx].team
        } else {
            "<FA>"@
        },
        player: p,
        fantasy_points: fantasy_points_spec(p, s),
    }
}

/// A record is kept when everything is shown or some roster entry
/// matches it.
pub open spec fn keeps_spec(
    entries: Seq<crate::league::roster::RosterEntryView>,
    p: PlayerView,
    show_all: bool,
) -> bool {
    show_all || find_entry(entries, p) >= 0
}

/// The scored records of the kept raw records, in input order.
pub open spec fn scored_spec(
    players: Seq<PlayerView>,
    s: &ScoringRule,
    entries: Seq<crate::league::roster::RosterEntryView>,
    show_all: bool,
) -> Seq<FantasyPlayerView>
    decreases players.len(),
{
    if players.len() == 0 {
        Seq::empty()
    } else {
        let rest = scored_spec(players.drop_last(), s, entries, show_all);
        if keeps_spec(entries, players.last(), show_all) {
            rest.push(scored_player_spec(entries, s, players.last()))
        } else {
            rest
        }
    }
}

/// Two records merge exactly when both name and primary position agree
/// (case-sensitively), so a two-way player stays two entries.
pub open spec fn same_key(a: PlayerView, b: PlayerView) -> bool {
    a.name == b.name && a.primary_position == b.primary_position
}

/// The index of the first accumulated record with the same key, or -1.
pub open spec fn find_group(acc: Seq<FantasyPlayerView>, p: PlayerView) -> int
    decreases acc.len(),
{
    if acc.len() == 0 {
        -1
    } else if same_key(acc[0].player, p) {
        0
    } else {
        let r = find_group(acc.skip(1), p);
        if r < 0 {
            -1
        } else {
            r + 1
        }
    }
}

proof fn lemma_find_group_at(acc: Seq<FantasyPlayerView>, p: PlayerView, i: int)
    requires
        0 <= i < acc.len(),
        same_key(acc[i].player, p),
        forall|j: int| 0 <= j < i ==> !same_key(acc[j].player, p),
    ensures
        find_group(acc, p) == i,
    decreases i,
{
    if i == 0 {
    } else {
        assert(acc.skip(1)[i - 1] == acc[i]);
        assert(forall|j: int| 0 <= j < i - 1 ==> acc.skip(1)[j] == acc[j + 1]);
        lemma_find_group_at(acc.skip(1), p, i - 1);
    }
}

proof fn lemma_find_group_none(acc: Seq<FantasyPlayerView>, p: PlayerView)
    requires
        forall|j: int| 0 <= j < acc.len() ==> !same_key(acc[j].player, p),
    ensures
        find_group(acc, p) == -1,
    decreases acc.len(),
{
    if acc.len() == 0 {
    } else {
        assert(forall|j: int| 0 <= j < acc.len() - 1 ==> acc.skip(1)[j] == acc[j + 1]);
        lemma_find_group_none(acc.skip(1), p);
    }
}

/// One record folded into the accumulator: combined into the first
/// entry with its key, or appended as a new group.
pub open spec fn merge_into_spec(
    acc: Seq<FantasyPlayerView>,
    fp: FantasyPlayerView,
) -> Seq<FantasyPlayerView> {
    let i = find_group(acc, fp.player);
    if i >= 0 {
        acc.update(i, combine_spec(acc[i], fp))
    } else {
        acc.push(fp)
    }
}

/// All records folded left to right: one entry per distinct
/// (name, primary position) key, in first-encounter order.
pub open spec fn merged_spec(s: Seq<FantasyPlayerView>) -> Seq<FantasyPlayerView>
    decreases s.len(),
{
    if s.len() == 0 {
        Seq::empty()
    } else {
        merge_into_spec(merged_spec(s.drop_last()), s.last())
    }
}

/// Groups scored records by (name, primary position) and folds each
/// group into one entry: stats add per the merge rules, points add.
/// Groups keep first-encounter order.
pub fn merge_same_players_stats(players: Vec<FantasyPlayer>) -> (r: Vec<FantasyPlayer>)
    ensures
        r.deep_view() == merged_spec(players.deep_view()),
{
    let mut acc: Vec<FantasyPlayer> = Vec::new();
    let mut i: usize = 0;
    proof {
        assert(players.deep_view().take(0) =~= Seq::<FantasyPlayerView>::empty());
    }
    while i < players.len()
        invariant
            i <= players@.len(),
            players.deep_view().len() == players@.len(),
            acc.deep_view() == merged_spec(players.deep_view().take(i as int)),
        decreases players@.len() - i,
    {
        let fp = players[i].duplicate();
        let ghost accv = acc.deep_view();
        let mut j: usize = 0;
        let mut hit: bool = false;
        while j < acc.len() && !hit
            invariant
                j <= acc@.len(),
                i < players@.len(),
                acc.deep_view().len() == acc@.len(),
                fp@ == players.deep_view()[i as int],
                forall|k: int| 0 <= k < j ==> !same_key(acc.deep_view()[k].player, fp@.player),
                hit ==> j < acc@.len() && same_key(acc.deep_view()[j as int].player, fp@.player),
            decreases acc@.len() - j + (if hit { 0int } else { 1int }),
        {
            let cand = &acc[j];
            if str_eq(cand.player.name.as_str(), fp.player.name.as_str()) && str_eq(
                cand.player.primary_position.as_str(),
                fp.player.primary_position.as_str(),
            ) {
                hit = true;
            } else {
                j += 1;
            }
        }
        if hit {
            proof {
                lemma_find_group_at(acc.deep_view(), fp@.player, j as int);
            }
            let mut cur = acc.remove(j);
            cur.add_stats(fp);
            acc.insert(j, cur);
            proof {
                assert(acc.deep_view() =~= merge_into_spec(accv, players.deep_view()[i as int]));
            }
        } else {
            proof {
                lemma_find_group_none(acc.deep_view(), fp@.player);
            }
            acc.push(fp);
            proof {
                assert(acc.deep_view() =~= merge_into_spec(accv, players.deep_view()[i as int]));
            }
        }
        i += 1;
        proof {
            let dv = players.deep_view();
            assert(dv.take(i as int).drop_last() =~= dv.take(i - 1));
            assert(dv.take(i as int).last() == dv[i - 1]);
        }
    }
    proof {
        assert(players.deep_view().take(players@.len() as int) =~= players.deep_view());
    }
    acc
}

/// Where a record lands in a ranked list: after every entry scoring at
/// least as much, before the first scoring strictly less.
pub open spec fn insert_desc(
    s: Seq<FantasyPlayerView>,
    x: FantasyPlayerView,
) -> Seq<FantasyPlayerView>
    decreases s.len(),
{
    if s.len() == 0 {
        seq![x]
    } else if s[0].fantasy_points >= x.fantasy_points {
        seq![s[0]] + insert_desc(s.skip(1), x)
    } else {
        seq![x] + s
    }
}

/// The stable descending ranking by fantasy points: records are
/// inserted left to right, each after every equal-or-better record
/// already placed, so equal scores keep encounter order.
pub open spec fn sort_desc_spec(s: Seq<FantasyPlayerView>) -> Seq<FantasyPlayerView>
    decreases s.len(),
{
    if s.len() == 0 {
        Seq::empty()
    } else {
        insert_desc(sort_desc_spec(s.drop_last()), s.last())
    }
}

proof fn lemma_insert_desc_split(s: Seq<FantasyPlayerView>, x: FantasyPlayerView, k: int)
    requires
        0 <= k <= s.len(),
        forall|j: int| 0 <= j < k ==> s[j].fantasy_points >= x.fantasy_points,
        k < s.len() ==> s[k].fantasy_points < x.fantasy_points,
    ensures
        insert_desc(s, x) == s.take(k) + seq![x] + s.skip(k),
    decreases k,
{
    if k == 0 {
        if s.len() == 0 {
            assert(insert_desc(s, x) =~= s.take(0) + seq![x] + s.skip(0));
        } else {
            assert(insert_desc(s, x) =~= s.take(0) + seq![x] + s.skip(0));
        }
    } else {
        assert(s[0].fantasy_points >= x.fantasy_points);
        assert(forall|j: int| 0 <= j < k - 1 ==> s.skip(1)[j] == s[j + 1]);
        lemma_insert_desc_split(s.skip(1), x, k - 1);
        assert(seq![s[0]] + (s.skip(1).take(k - 1) + seq![x] + s.skip(1).skip(k - 1)) =~= s.take(k)
            + seq![x] + s.skip(k));
    }
}

/// Ranks scored records by fantasy points, highest first, with a
/// stable insertion: equal scores keep their relative input order.
pub fn sort_by_fantasy_points(players: Vec<FantasyPlayer>) -> (r: Vec<FantasyPlayer>)
    ensures
        r.deep_view() == sort_desc_spec(players.deep_view()),
{
    let mut result: Vec<FantasyPlayer> = Vec::new();
    let mut i: usize = 0;
    proof {
        assert(players.deep_view().take(0) =~= Seq::<FantasyPlayerView>::empty());
    }
    while i < players.len()
        invariant
            i <= players@.len(),
            players.deep_view().len() == players@.len(),
            result.deep_view() == sort_desc_spec(players.deep_view().take(i as int)),
        decreases players@.len() - i,
    {
        let x = players[i].duplicate();
        let ghost resv = result.deep_view();
        let mut k: usize = 0;
        while k < result.len() && result[k].fantasy_points >= x.fantasy_points
            invariant
                k <= result@.len(),
                result.deep_view().len() == result@.len(),
                x@ == players.deep_view()[i as int],
                forall|j: int|
                    0 <= j < k ==> result.deep_view()[j].fantasy_points >= x@.fantasy_points,
            decreases result@.len() - k,
        {
            k += 1;
        }
        proof {
            lemma_insert_desc_split(result.deep_view(), x@, k as int);
        }
        result.insert(k, x);
        i += 1;
        proof {
            let dv = players.deep_view();
            assert(result.deep_view() =~= resv.take(k as int) + seq![dv[i - 1]] + resv.skip(
                k as int,
            ));
            assert(dv.take(i as int).drop_last() =~= dv.take(i - 1));
            assert(dv.take(i as int).last() == dv[i - 1]);
        }
    }
    proof {
        assert(players.deep_view().take(players@.len() as int) =~= players.deep_view());
    }
    result
}

/// The whole aggregation: keep the records a roster entry matches (or
/// all of them when everything is shown), assign teams and points,
/// merge records of the same player, and rank stably by points.
pub open spec fn create_fantasy_players_spec(
    players: Seq<PlayerView>,
    s: &ScoringRule,
    entries: Seq<crate::league::roster::RosterEntryView>,
    show_all: bool,
) -> Seq<FantasyPlayerView> {
    sort_desc_spec(merged_spec(scored_spec(players, s, entries, show_all)))
}

/// Matches raw records to the roster, scores them under the rule,
/// merges records of the same (name, primary position) and returns
/// them ranked by points descending, ties in first-encounter order.
/// Unmatched records are dropped, or kept under the free-agent
/// sentinel team when `show_all` is set.
pub fn create_fantasy_players(
    players: &Vec<Player>,
    s: &ScoringRule,
    r: &Roster,
    show_all: bool,
) -> (res: Vec<FantasyPlayer>)
    requires
        s.wf(),
    ensures
        res.deep_view() == create_fantasy_players_spec(players.deep_view(), s, r@, show_all),
{
    let mut scored: Vec<FantasyPlayer> = Vec::new();
    let mut i: usize = 0;
    proof {
        assert(players.deep_view().take(0) =~= Seq::<PlayerView>::empty());
    }
    while i < players.len()
        invariant
            s.wf(),
            i <= players@.len(),
            players.deep_view().len() == players@.len(),
            scored.deep_view() == scored_spec(players.deep_view().take(i as int), s, r@, show_all),
        decreases players@.len() - i,
    {
        let p = &players[i];
        let ghost scv = scored.deep_view();
        let team_opt = roster_team_for(r, p);
        let keep = show_all || team_opt.is_some();
        if keep {
            let team = match team_opt {
                Some(t) => t,
                None => String::from_str("<FA>"),
            };
            let fp = FantasyPlayer {
                team,
                fantasy_points: get_fantasy_points(p, s),
                player: p.duplicate(),
            };
            scored.push(fp);
        }
        i += 1;
        proof {
            let dv = players.deep_view();
            assert(dv.take(i as int).drop_last() =~= dv.take(i - 1));
            assert(dv.take(i as int).last() == dv[i - 1]);
            if keep {
                assert(scored.deep_view() =~= scv.push(scored_player_spec(r@, s, dv[i - 1])));
            }
        }
    }
    proof {
        assert(players.deep_view().take(players@.len() as int) =~= players.deep_view());
    }
    let merged = merge_same_players_stats(scored);
    sort_by_fantasy_points(merged)
}

/// The ranked list is exactly as long as its input.
proof fn lemma_insert_desc_len(s: Seq<FantasyPlayerView>, x: FantasyPlayerView)
    ensures
        insert_desc(s, x).len() == s.len() + 1,
    decreases s.len(),
{
    if s.len() == 0 {
    } else if s[0].fantasy_points >= x.fantasy_points {
        lemma_insert_desc_len(s.skip(1), x);
    } else {
    }
}

/// Everything in an insertion's result is the new record or one of the
/// old ones.
proof fn lemma_insert_desc_elems(s: Seq<FantasyPlayerView>, x: FantasyPlayerView, j: int)
    requires
        0 <= j < insert_desc(s, x).len(),
    ensures
        insert_desc(s, x)[j] == x || s.contains(insert_desc(s, x)[j]),
    decreases s.len(),
{
    if s.len() == 0 {
    } else if s[0].fantasy_points >= x.fantasy_points {
        if j == 0 {
            assert(s.contains(s[0]));
        } else {
            lemma_insert_desc_elems(s.skip(1), x, j - 1);
            let e = insert_desc(s.skip(1), x)[j - 1];
            if e != x {
                let k = choose|k: int| 0 <= k < s.skip(1).len() && s.skip(1)[k] == e;
                assert(s[k + 1] == e);
            }
        }
    } else {
        if j > 0 {
            assert(s.contains(s[j - 1]));
        }
    }
}

/// A record ranks at least as high as every record after it.
pub open spec fn sorted_desc(s: Seq<FantasyPlayerView>) -> bool {
    forall|i: int, j: int|
        0 <= i < j < s.len() ==> s[i].fantasy_points >= s[j].fantasy_points
}

proof fn lemma_insert_desc_sorted(s: Seq<FantasyPlayerView>, x: FantasyPlayerView)
    requires
        sorted_desc(s),
    ensures
        sorted_desc(insert_desc(s, x)),
    decreases s.len(),
{
    if s.len() == 0 {
    } else if s[0].fantasy_points >= x.fantasy_points {
        assert(forall|j: int| 0 <= j < s.len() - 1 ==> s.skip(1)[j] == s[j + 1]);
        lemma_insert_desc_sorted(s.skip(1), x);
        let ins = insert_desc(s.skip(1), x);
        lemma_insert_desc_len(s.skip(1), x);
        assert forall|j: int| 0 <= j < ins.len() implies s[0].fantasy_points
            >= ins[j].fantasy_points by {
            lemma_insert_desc_elems(s.skip(1), x, j);
            if ins[j] != x {
                let k = choose|k: int| 0 <= k < s.skip(1).len() && s.skip(1)[k] == ins[j];
                assert(s[k + 1] == ins[j]);
            }
        }
        let out = seq![s[0]] + ins;
        assert forall|i: int, j: int|
            0 <= i < j < out.len() implies out[i].fantasy_points >= out[j].fantasy_points by {
            if i > 0 {
                assert(out[i] == ins[i - 1] && out[j] == ins[j - 1]);
            } else {
                assert(out[j] == ins[j - 1]);
            }
        }
    } else {
        let out = seq![x] + s;
        assert forall|i: int, j: int|
            0 <= i < j < out.len() implies out[i].fantasy_points >= out[j].fantasy_points by {
            if i > 0 {
                assert(out[i] == s[i - 1] && out[j] == s[j - 1]);
            } else {
                assert(out[j] == s[j - 1]);
                if j > 1 {
                    assert(s[0].fantasy_points >= s[j - 1].fantasy_points);
                }
            }
        }
    }
}

/// Ranked output is sorted: fantasy points never increase along the
/// list, and no record is gained or lost.
pub proof fn lemma_sort_desc_sorted(s: Seq<FantasyPlayerView>)
    ensures
        sorted_desc(sort_desc_spec(s)),
        sort_desc_spec(s).len() == s.len(),
    decreases s.len(),
{
    if s.len() == 0 {
    } else {
        lemma_sort_desc_sorted(s.drop_last());
        lemma_insert_desc_sorted(sort_desc_spec(s.drop_last()), s.last());
        lemma_insert_desc_len(sort_desc_spec(s.drop_last()), s.last());
    }
}

/// Scores exactly `p` points.
pub open spec fn points_pred(p: int) -> spec_fn(FantasyPlayerView) -> bool {
    |y: FantasyPlayerView| y.fantasy_points == p
}

/// The records of a list that score exactly `p` points, in list order.
pub open spec fn with_points(s: Seq<FantasyPlayerView>, p: int) -> Seq<FantasyPlayerView> {
    s.filter(points_pred(p))
}

proof fn lemma_filter_all_fail(s: Seq<FantasyPlayerView>, p: int)
    requires
        forall|i: int| 0 <= i < s.len() ==> s[i].fantasy_points != p,
    ensures
        with_points(s, p) == Seq::<FantasyPlayerView>::empty(),
    decreases s.len(),
{
    reveal_with_fuel(Seq::<_>::filter, 2);
    if s.len() == 0 {
        assert(with_points(s, p) =~= Seq::<FantasyPlayerView>::empty());
    } else {
        lemma_filter_all_fail(s.drop_last(), p);
        assert(with_points(s, p) =~= Seq::<FantasyPlayerView>::empty());
    }
}

proof fn lemma_insert_desc_stable(s: Seq<FantasyPlayerView>, x: FantasyPlayerView, p: int)
    requires
        sorted_desc(s),
    ensures
        with_points(insert_desc(s, x), p) == if x.fantasy_points == p {
            with_points(s, p).push(x)
        } else {
            with_points(s, p)
        },
    decreases s.len(),
{
    reveal_with_fuel(Seq::<_>::filter, 3);
    let pred = points_pred(p);
    if s.len() == 0 {
        assert(seq![x].drop_last() =~= Seq::<FantasyPlayerView>::empty());
        if x.fantasy_points == p {
            assert(with_points(insert_desc(s, x), p) =~= with_points(s, p).push(x));
        } else {
            assert(with_points(insert_desc(s, x), p) =~= with_points(s, p));
        }
    } else if s[0].fantasy_points >= x.fantasy_points {
        assert(forall|j: int| 0 <= j < s.len() - 1 ==> s.skip(1)[j] == s[j + 1]);
        lemma_insert_desc_stable(s.skip(1), x, p);
        Seq::filter_distributes_over_add(seq![s[0]], insert_desc(s.skip(1), x), pred);
        Seq::filter_distributes_over_add(seq![s[0]], s.skip(1), pred);
        assert(seq![s[0]] + s.skip(1) =~= s);
        if x.fantasy_points == p {
            assert(seq![s[0]].filter(pred) + with_points(s.skip(1), p).push(x) =~= (
            seq![s[0]].filter(pred) + with_points(s.skip(1), p)).push(x));
        }
    } else {
        // every record of s scores strictly less than x, so none scores p
        // when x does
        Seq::filter_distributes_over_add(seq![x], s, pred);
        if x.fantasy_points == p {
            assert forall|i: int| 0 <= i < s.len() implies s[i].fantasy_points != p by {
                if i > 0 {
                    assert(s[0].fantasy_points >= s[i].fantasy_points);
                }
            }
            lemma_filter_all_fail(s, p);
            assert(seq![x].filter(pred) =~= seq![x]);
            assert(with_points(insert_desc(s, x), p) =~= with_points(s, p).push(x));
        } else {
            assert(seq![x].filter(pred) =~= Seq::<FantasyPlayerView>::empty());
            assert(with_points(insert_desc(s, x), p) =~= with_points(s, p));
        }
    }
}

/// The ranking is stable: for every score, the records with exactly
/// that score come out in the same order they went in.
pub proof fn lemma_sort_desc_stable(s: Seq<FantasyPlayerView>, p: int)
    ensures
        with_points(sort_desc_spec(s), p) == with_points(s, p),
    decreases s.len(),
{
    reveal_with_fuel(Seq::<_>::filter, 3);
    let pred = points_pred(p);
    if s.len() == 0 {
    } else {
        lemma_sort_desc_stable(s.drop_last(), p);
        lemma_sort_desc_sorted(s.drop_last());
        lemma_insert_desc_stable(sort_desc_spec(s.drop_last()), s.last(), p);
        if s.last().fantasy_points == p {
            assert(with_points(s, p) =~= with_points(s.drop_last(), p).push(s.last()));
        } else {
            assert(with_points(s, p) =~= with_points(s.drop_last(), p));
        }
    }
}

proof fn lemma_term_double(c: int, c2: int, w: int)
    requires
        c2 == 2 * c,
    ensures
        term_units(c2, w) == 2 * term_units(c, w),
{
    assert(c2 * w * 3 == 2 * (c * w * 3)) by (nonlinear_arith)
        requires
            c2 == 2 * c,
    ;
}

/// Scoring is linear in the counts: a batting record with every count
/// doubled scores exactly twice the points, whatever the rule, so in
/// particular under a single-statistic rule.
pub proof fn lemma_batter_points_linear(b: BatterStats, d: BatterStats, r: BatterScoringRule)
    requires
        d.at_bats as int == 2 * b.at_bats as int,
        d.runs as int == 2 * b.runs as int,
        d.hits as int == 2 * b.hits as int,
        d.singles as int == 2 * b.singles as int,
        d.doubles as int == 2 * b.doubles as int,
        d.triples as int == 2 * b.triples as int,
        d.home_runs as int == 2 * b.home_runs as int,
        d.runs_batted_in as int == 2 * b.runs_batted_in as int,
        d.sacrifice_hits as int == 2 * b.sacrifice_hits as int,
        d.stolen_bases as int == 2 * b.stolen_bases as int,
        d.caught_stealing as int == 2 * b.caught_stealing as int,
        d.walks as int == 2 * b.walks as int,
        d.intentional_walks as int == 2 * b.intentional_walks as int,
        d.hit_by_pitch as int == 2 * b.hit_by_pitch as int,
        d.strikeouts as int == 2 * b.strikeouts as int,
        d.ground_into_double_play as int == 2 * b.ground_into_double_play as int,
        d.total_bases as int == 2 * b.total_bases as int,
    ensures
        batter_points_spec(d, r) == 2 * batter_points_spec(b, r),
{
    lemma_term_double(b.at_bats as int, d.at_bats as int, r.at_bats as int);
    lemma_term_double(b.runs as int, d.runs as int, r.runs as int);
    lemma_term_double(b.hits as int, d.hits as int, r.hits as int);
    lemma_term_double(b.singles as int, d.singles as int, r.singles as int);
    lemma_term_double(b.doubles as int, d.doubles as int, r.doubles as int);
    lemma_term_double(b.triples as int, d.triples as int, r.triples as int);
    lemma_term_double(b.home_runs as int, d.home_runs as int, r.home_runs as int);
    lemma_term_double(b.runs_batted_in as int, d.runs_batted_in as int, r.runs_batted_in as int);
    lemma_term_double(b.sacrifice_hits as int, d.sacrifice_hits as int, r.sacrifice_hits as int);
    lemma_term_double(b.stolen_bases as int, d.stolen_bases as int, r.stolen_bases as int);
    lemma_term_double(
        b.caught_stealing as int,
        d.caught_stealing as int,
        r.caught_stealing as int,
    );
    lemma_term_double(b.walks as int, d.walks as int, r.walks as int);
    lemma_term_double(
        b.intentional_walks as int,
        d.intentional_walks as int,
        r.intentional_walks as int,
    );
    lemma_term_double(b.hit_by_pitch as int, d.hit_by_pitch as int, r.hit_by_pitch as int);
    lemma_term_double(b.strikeouts as int, d.strikeouts as int, r.strikeouts as int);
    lemma_term_double(
        b.ground_into_double_play as int,
        d.ground_into_double_play as int,
        r.ground_into_double_play as int,
    );
    lemma_term_double(b.total_bases as int, d.total_bases as int, r.total_bases as int);
}

/// Merging a batting record with itself doubles every counting field.
pub proof fn lemma_batter_merge_self_doubles(b: BatterStats)
    requires
        b.at_bats <= u32::MAX / 2,
        b.runs <= u32::MAX / 2,
        b.hits <= u32::MAX / 2,
        b.singles <= u32::MAX / 2,
        b.doubles <= u32::MAX / 2,
        b.triples <= u32::MAX / 2,
        b.home_runs <= u32::MAX / 2,
        b.runs_batted_in <= u32::MAX / 2,
        b.sacrifice_hits <= u32::MAX / 2,
        b.stolen_bases <= u32::MAX / 2,
        b.caught_stealing <= u32::MAX / 2,
        b.walks <= u32::MAX / 2,
        b.intentional_walks <= u32::MAX / 2,
        b.hit_by_pitch <= u32::MAX / 2,
        b.strikeouts <= u32::MAX / 2,
        b.ground_into_double_play <= u32::MAX / 2,
        b.total_bases <= u32::MAX / 2,
    ensures
        BatterStats::add_spec(b, b).at_bats as int == 2 * b.at_bats as int,
        BatterStats::add_spec(b, b).runs as int == 2 * b.runs as int,
        BatterStats::add_spec(b, b).hits as int == 2 * b.hits as int,
        BatterStats::add_spec(b, b).singles as int == 2 * b.singles as int,
        BatterStats::add_spec(b, b).doubles as int == 2 * b.doubles as int,
        BatterStats::add_spec(b, b).triples as int == 2 * b.triples as int,
        BatterStats::add_spec(b, b).home_runs as int == 2 * b.home_runs as int,
        BatterStats::add_spec(b, b).runs_batted_in as int == 2 * b.runs_batted_in as int,
        BatterStats::add_spec(b, b).sacrifice_hits as int == 2 * b.sacrifice_hits as int,
        BatterStats::add_spec(b, b).stolen_bases as int == 2 * b.stolen_bases as int,
        BatterStats::add_spec(b, b).caught_stealing as int == 2 * b.caught_stealing as int,
        BatterStats::add_spec(b, b).walks as int == 2 * b.walks as int,
        BatterStats::add_spec(b, b).intentional_walks as int == 2 * b.intentional_walks as int,
        BatterStats::add_spec(b, b).hit_by_pitch as int == 2 * b.hit_by_pitch as int,
        BatterStats::add_spec(b, b).strikeouts as int == 2 * b.strikeouts as int,
        BatterStats::add_spec(b, b).ground_into_double_play as int == 2
            * b.ground_into_double_play as int,
        BatterStats::add_spec(b, b).total_bases as int == 2 * b.total_bases as int,
{
}

/// Merging a pitching record with itself doubles every counting field,
/// while innings pitched renormalize: doubled thirds past two thirds
/// roll into the next whole inning with three thirds taken back, so
/// one and two thirds merged with itself is three and one third.
pub proof fn lemma_pitcher_merge_self_renorm(p: PitcherStats)
    requires
        p.innings_pitched.wf(),
        p.innings_pitched.whole < u32::MAX / 2,
        p.wins <= u32::MAX / 2,
        p.losses <= u32::MAX / 2,
        p.complete_games <= u32::MAX / 2,
        p.shutouts <= u32::MAX / 2,
        p.saves <= u32::MAX / 2,
        p.outs <= u32::MAX / 2,
        p.hits <= u32::MAX / 2,
        p.earned_runs <= u32::MAX / 2,
        p.home_runs <= u32::MAX / 2,
        p.walks <= u32::MAX / 2,
        p.intentional_walks <= u32::MAX / 2,
        p.hit_batters <= u32::MAX / 2,
        p.strikeouts <= u32::MAX / 2,
        p.stolen_bases_allowed <= u32::MAX / 2,
        p.batters_grounded_into_double_plays <= u32::MAX / 2,
        p.total_bases_allowed <= u32::MAX / 2,
    ensures
        PitcherStats::add_spec(p, p).wins as int == 2 * p.wins as int,
        PitcherStats::add_spec(p, p).losses as int == 2 * p.losses as int,
        PitcherStats::add_spec(p, p).complete_games as int == 2 * p.complete_games as int,
        PitcherStats::add_spec(p, p).shutouts as int == 2 * p.shutouts as int,
        PitcherStats::add_spec(p, p).saves as int == 2 * p.saves as int,
        PitcherStats::add_spec(p, p).outs as int == 2 * p.outs as int,
        PitcherStats::add_spec(p, p).hits as int == 2 * p.hits as int,
        PitcherStats::add_spec(p, p).earned_runs as int == 2 * p.earned_runs as int,
        PitcherStats::add_spec(p, p).home_runs as int == 2 * p.home_runs as int,
        PitcherStats::add_spec(p, p).walks as int == 2 * p.walks as int,
        PitcherStats::add_spec(p, p).intentional_walks as int == 2 * p.intentional_walks as int,
        PitcherStats::add_spec(p, p).hit_batters as int == 2 * p.hit_batters as int,
        PitcherStats::add_spec(p, p).strikeouts as int == 2 * p.strikeouts as int,
        PitcherStats::add_spec(p, p).stolen_bases_allowed as int == 2
            * p.stolen_bases_allowed as int,
        PitcherStats::add_spec(p, p).batters_grounded_into_double_plays as int == 2
            * p.batters_grounded_into_double_plays as int,
        PitcherStats::add_spec(p, p).total_bases_allowed as int == 2
            * p.total_bases_allowed as int,
        p.innings_pitched.thirds <= 1 ==> PitcherStats::add_spec(p, p).innings_pitched
            == (InningsPitched {
            whole: (2 * p.innings_pitched.whole) as u32,
            thirds: (2 * p.innings_pitched.thirds) as u32,
        }),
        p.innings_pitched.thirds == 2 ==> PitcherStats::add_spec(p, p).innings_pitched
            == (InningsPitched { whole: (2 * p.innings_pitched.whole + 1) as u32, thirds: 1u32 }),
{
}

/// The whole aggregation's output is ranked as the contract of the
/// sort stage promises: fantasy points never increase along the list,
/// and for every score the records holding it keep the order the
/// merge stage produced them in.
pub proof fn lemma_create_fantasy_players_ranked(
    players: Seq<PlayerView>,
    s: &ScoringRule,
    entries: Seq<crate::league::roster::RosterEntryView>,
    show_all: bool,
    p: int,
)
    ensures
        sorted_desc(create_fantasy_players_spec(players, s, entries, show_all)),
        with_points(create_fantasy_players_spec(players, s, entries, show_all), p) == with_points(
            merged_spec(scored_spec(players, s, entries, show_all)),
            p,
        ),
{
    lemma_sort_desc_sorted(merged_spec(scored_spec(players, s, entries, show_all)));
    lemma_sort_desc_stable(merged_spec(scored_spec(players, s, entries, show_all)), p);
}

/// No two records of the list share a merge key.
pub open spec fn distinct_keys(s: Seq<FantasyPlayerView>) -> bool {
    forall|i: int, j: int| 0 <= i < j < s.len() ==> !same_key(s[i].player, s[j].player)
}

proof fn lemma_find_group_none_rev(acc: Seq<FantasyPlayerView>, p: PlayerView)
    requires
        find_group(acc, p) == -1,
    ensures
        forall|j: int| 0 <= j < acc.len() ==> !same_key(acc[j].player, p),
    decreases acc.len(),
{
    if acc.len() == 0 {
    } else {
        assert(!same_key(acc[0].player, p));
        lemma_find_group_props(acc.skip(1), p);
        lemma_find_group_none_rev(acc.skip(1), p);
        assert forall|j: int| 0 <= j < acc.len() implies !same_key(acc[j].player, p) by {
            if j > 0 {
                assert(acc.skip(1)[j - 1] == acc[j]);
            }
        }
    }
}

proof fn lemma_find_group_props(acc: Seq<FantasyPlayerView>, p: PlayerView)
    ensures
        find_group(acc, p) == -1 || (0 <= find_group(acc, p) < acc.len() && same_key(
            acc[find_group(acc, p)].player,
            p,
        )),
    decreases acc.len(),
{
    if acc.len() == 0 {
    } else if same_key(acc[0].player, p) {
    } else {
        lemma_find_group_props(acc.skip(1), p);
        assert(forall|j: int| 0 <= j < acc.len() - 1 ==> acc.skip(1)[j] == acc[j + 1]);
    }
}

proof fn lemma_merge_into_distinct(acc: Seq<FantasyPlayerView>, fp: FantasyPlayerView)
    requires
        distinct_keys(acc),
    ensures
        distinct_keys(merge_into_spec(acc, fp)),
{
    lemma_find_group_props(acc, fp.player);
    let i = find_group(acc, fp.player);
    if i >= 0 {
        let out = acc.update(i, combine_spec(acc[i], fp));
        assert(same_key(out[i].player, acc[i].player));
        assert forall|k: int, l: int|
            0 <= k < l < out.len() implies !same_key(out[k].player, out[l].player) by {
            assert(out[k].player.name == acc[k].player.name && out[k].player.primary_position
                == acc[k].player.primary_position);
            assert(out[l].player.name == acc[l].player.name && out[l].player.primary_position
                == acc[l].player.primary_position);
        }
    } else {
        lemma_find_group_none_rev(acc, fp.player);
        let out = acc.push(fp);
        assert forall|k: int, l: int|
            0 <= k < l < out.len() implies !same_key(out[k].player, out[l].player) by {
            if l < acc.len() {
            } else {
                assert(out[l] == fp);
                assert(!same_key(acc[k].player, fp.player));
            }
        }
    }
}

/// The merge leaves exactly one record per distinct
/// (name, primary position) key, however many dates and source
/// records contributed.
pub proof fn lemma_merged_distinct_keys(s: Seq<FantasyPlayerView>)
    ensures
        distinct_keys(merged_spec(s)),
    decreases s.len(),
{
    if s.len() == 0 {
    } else {
        lemma_merged_distinct_keys(s.drop_last());
        lemma_merge_into_distinct(merged_spec(s.drop_last()), s.last());
    }
}

proof fn lemma_sort_desc_elems(s: Seq<FantasyPlayerView>, j: int)
    requires
        0 <= j < sort_desc_spec(s).len(),
    ensures
        s.contains(sort_desc_spec(s)[j]),
    decreases s.len(),
{
    if s.len() == 0 {
    } else {
        let sorted = sort_desc_spec(s.drop_last());
        lemma_insert_desc_elems(sorted, s.last(), j);
        let e = sort_desc_spec(s)[j];
        if e == s.last() {
            assert(s[s.len() - 1] == e);
        } else {
            let k = choose|k: int| 0 <= k < sorted.len() && sorted[k] == e;
            lemma_sort_desc_elems(s.drop_last(), k);
            let m = choose|m: int| 0 <= m < s.drop_last().len() && s.drop_last()[m] == e;
            assert(s[m] == e);
        }
    }
}

proof fn lemma_insert_desc_distinct(s: Seq<FantasyPlayerView>, x: FantasyPlayerView)
    requires
        distinct_keys(s),
        forall|j: int| 0 <= j < s.len() ==> !same_key(s[j].player, x.player),
    ensures
        distinct_keys(insert_desc(s, x)),
    decreases s.len(),
{
    if s.len() == 0 {
    } else if s[0].fantasy_points >= x.fantasy_points {
        assert(forall|j: int| 0 <= j < s.len() - 1 ==> s.skip(1)[j] == s[j + 1]);
        lemma_insert_desc_distinct(s.skip(1), x);
        let ins = insert_desc(s.skip(1), x);
        let out = seq![s[0]] + ins;
        assert forall|k: int, l: int|
            0 <= k < l < out.len() implies !same_key(out[k].player, out[l].player) by {
            if k > 0 {
                assert(out[k] == ins[k - 1] && out[l] == ins[l - 1]);
            } else {
                assert(out[l] == ins[l - 1]);
                lemma_insert_desc_elems(s.skip(1), x, l - 1);
                if ins[l - 1] != x {
                    let m = choose|m: int|
                        0 <= m < s.skip(1).len() && s.skip(1)[m] == ins[l - 1];
                    assert(s[m + 1] == ins[l - 1]);
                }
            }
        }
    } else {
        let out = seq![x] + s;
        assert forall|k: int, l: int|
            0 <= k < l < out.len() implies !same_key(out[k].player, out[l].player) by {
            if k > 0 {
                assert(out[k] == s[k - 1] && out[l] == s[l - 1]);
            } else {
                assert(out[l] == s[l - 1]);
            }
        }
    }
}

proof fn lemma_sort_desc_distinct(s: Seq<FantasyPlayerView>)
    requires
        distinct_keys(s),
    ensures
        distinct_keys(sort_desc_spec(s)),
    decreases s.len(),
{
    if s.len() == 0 {
    } else {
        assert(distinct_keys(s.drop_last()));
        lemma_sort_desc_distinct(s.drop_last());
        let sorted = sort_desc_spec(s.drop_last());
        assert forall|j: int| 0 <= j < sorted.len() implies !same_key(
            sorted[j].player,
            s.last().player,
        ) by {
            lemma_sort_desc_elems(s.drop_last(), j);
            let m = choose|m: int|
                0 <= m < s.drop_last().len() && s.drop_last()[m] == sorted[j];
            assert(s[m] == sorted[j]);
            assert(!same_key(s[m].player, s[s.len() - 1].player));
        }
        lemma_insert_desc_distinct(sorted, s.last());
    }
}

/// The aggregation leaves exactly one ranked record per distinct
/// (name, primary position) pair, whatever records went in.
pub proof fn lemma_create_fantasy_players_distinct(
    players: Seq<PlayerView>,
    s: &ScoringRule,
    entries: Seq<crate::league::roster::RosterEntryView>,
    show_all: bool,
)
    ensures
        distinct_keys(create_fantasy_players_spec(players, s, entries, show_all)),
{
    lemma_merged_distinct_keys(scored_spec(players, s, entries, show_all));
    lemma_sort_desc_distinct(merged_spec(scored_spec(players, s, entries, show_all)));
}

} // verus!
