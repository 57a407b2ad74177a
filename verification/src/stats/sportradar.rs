//! The stats provider's record shapes, modeled as plain counts, and
//! their conversion into the library's flat stat records. Fetching and
//! decoding the provider's JSON stays outside the library; the shapes
//! here carry what the conversion logic reads.

use vstd::prelude::*;

use crate::stats::{BatterStats, InningsPitched, PitcherStats, PlayerView};
use crate::text::str_eq;

verus! {

/// On-base counts of a batting line.
#[derive(Clone, Copy, Debug)]
pub struct HitterOnBaseStats {
    pub s: u32,
    pub d: u32,
    pub t: u32,
    pub hr: u32,
    pub tb: u32,
    pub bb: u32,
    pub ibb: u32,
    pub hbp: u32,
    pub fc: u32,
    pub roe: u32,
    pub h: u32,
    pub cycle: u32,
}

/// Run counts of a batting line.
#[derive(Clone, Copy, Debug)]
pub struct HitterRunStats {
    pub total: u32,
}

/// Out counts of a line.
#[derive(Clone, Copy, Debug)]
pub struct OutStats {
    pub po: u32,
    pub fo: u32,
    pub fidp: u32,
    pub lo: u32,
    pub lidp: u32,
    pub go: u32,
    pub gidp: u32,
    pub klook: u32,
    pub kswing: u32,
    pub ktotal: u32,
    pub sacfly: u32,
    pub sachit: u32,
}

/// Steal counts of a line.
#[derive(Clone, Copy, Debug)]
pub struct StealStats {
    pub caught: u32,
    pub stolen: u32,
    pub pickoff: u32,
}

/// A batting line's overall counts.
#[derive(Clone, Copy, Debug)]
pub struct HittingOverallStats {
    pub ab: u32,
    pub rbi: u32,
    pub onbase: HitterOnBaseStats,
    pub runs: HitterRunStats,
    pub outs: OutStats,
    pub steal: StealStats,
}

/// A batting line.
#[derive(Clone, Copy, Debug)]
pub struct HittingStats {
    pub overall: HittingOverallStats,
}

/// On-base counts allowed by a pitching line.
#[derive(Clone, Copy, Debug)]
pub struct PitcherOnBaseStats {
    pub s: u32,
    pub d: u32,
    pub t: u32,
    pub hr: u32,
    pub tb: u32,
    pub bb: u32,
    pub ibb: u32,
    pub hbp: u32,
    pub fc: u32,
    pub roe: u32,
    pub h: u32,
}

/// Run counts of a pitching line.
#[derive(Clone, Copy, Debug)]
pub struct PitcherRunStats {
    pub total: u32,
    pub unearned: u32,
    pub earned: u32,
}

/// Game counts of a pitching line.
#[derive(Clone, Copy, Debug)]
pub struct PitcherGameStats {
    pub start: u32,
    pub play: u32,
    pub finish: u32,
    pub svo: u32,
    pub qstart: u32,
    pub shutout: u32,
    pub complete: u32,
    pub win: u32,
    pub loss: u32,
    pub save: u32,
    pub hold: u32,
    pub blown_save: u32,
    pub team_win: u32,
    pub team_loss: u32,
}

/// A pitching line's overall counts. Outs pitched come as `ip_1`;
/// `ip_2` is the innings-pitched value in base-three notation.
#[derive(Clone, Copy, Debug)]
pub struct PitchingOverallStats {
    pub lob: u32,
    pub pitch_count: u32,
    pub wp: u32,
    pub bk: u32,
    pub ip_1: u32,
    pub ip_2: InningsPitched,
    pub bf: u32,
    pub onbase: PitcherOnBaseStats,
    pub runs: PitcherRunStats,
    pub outs: OutStats,
    pub steal: StealStats,
    pub games: PitcherGameStats,
}

/// A pitching line.
#[derive(Clone, Copy, Debug)]
pub struct PitchingStats {
    pub overall: PitchingOverallStats,
}

/// The two optional stat lines of a provider record.
#[derive(Clone, Copy, Debug)]
pub struct Stats {
    pub hitting: Option<HittingStats>,
    pub pitching: Option<PitchingStats>,
}

/// One provider record: a player's names, status, positions and lines.
#[derive(Debug)]
pub struct Player {
    pub preferred_name: String,
    pub last_name: String,
    pub status: String,
    pub position: String,
    pub primary_position: String,
    pub statistics: Stats,
}

/// The mathematical shape of a provider record.
pub ghost struct SrPlayerView {
    pub preferred_name: Seq<char>,
    pub last_name: Seq<char>,
    pub status: Seq<char>,
    pub position: Seq<char>,
    pub primary_position: Seq<char>,
    pub statistics: Stats,
}

impl View for Player {
    type V = SrPlayerView;

    open spec fn view(&self) -> SrPlayerView {
        SrPlayerView {
            preferred_name: self.preferred_name@,
            last_name: self.last_name@,
            status: self.status@,
            position: self.position@,
            primary_position: self.primary_position@,
            statistics: self.statistics,
        }
    }
}

impl DeepView for Player {
    type V = SrPlayerView;

    open spec fn deep_view(&self) -> SrPlayerView {
        self.view()
    }
}

/// The batting counts a provider batting line flattens to.
pub open spec fn batter_stats_of(s: HittingStats) -> BatterStats {
    BatterStats {
        at_bats: s.overall.ab,
        runs: s.overall.runs.total,
        hits: s.overall.onbase.h,
        singles: s.overall.onbase.s,
        doubles: s.overall.onbase.d,
        triples: s.overall.onbase.t,
        home_runs: s.overall.onbase.hr,
        runs_batted_in: s.overall.rbi,
        sacrifice_hits: s.overall.outs.sachit,
        stolen_bases: s.overall.steal.stolen,
        caught_stealing: s.overall.steal.caught,
        walks: s.overall.onbase.bb,
        intentional_walks: s.overall.onbase.ibb,
        hit_by_pitch: s.overall.onbase.hbp,
        strikeouts: s.overall.outs.ktotal,
        ground_into_double_play: s.overall.outs.gidp,
        total_bases: s.overall.onbase.tb,
    }
}

/// The pitching counts a provider pitching line flattens to.
pub open spec fn pitcher_stats_of(s: PitchingStats) -> PitcherStats {
    PitcherStats {
        innings_pitched: s.overall.ip_2,
        wins: s.overall.games.win,
        losses: s.overall.games.loss,
        complete_games: s.overall.games.complete,
        shutouts: s.overall.games.shutout,
        saves: s.overall.games.save,
        outs: s.overall.ip_1,
        hits: s.overall.onbase.h,
        earned_runs: s.overall.runs.earned,
        home_runs: s.overall.onbase.hr,
        walks: s.overall.onbase.bb,
        intentional_walks: s.overall.onbase.ibb,
        hit_batters: s.overall.onbase.hbp,
        strikeouts: s.overall.outs.ktotal,
        stolen_bases_allowed: s.overall.steal.stolen,
        batters_grounded_into_double_plays: s.overall.outs.gidp,
        total_bases_allowed: s.overall.onbase.tb,
    }
}

/// The flat record a provider record converts to: the full name is
/// the preferred name, a space and the last name; the batting line is
/// kept only for players not listed at position P; the pitching line
/// is kept as it stands.
pub open spec fn convert_one_spec(p: SrPlayerView) -> PlayerView {
    PlayerView {
        name: p.preferred_name + seq![' '] + p.last_name,
        position: p.position,
        primary_position: p.primary_position,
        batter_stats: match p.statistics.hitting {
            Some(h) => if p.position != "P"@ {
                Some(batter_stats_of(h))
            } else {
                None
            },
            None => None,
        },
        pitcher_stats: match p.statistics.pitching {
            Some(ps) => Some(pitcher_stats_of(ps)),
            None => None,
        },
    }
}

/// The flat records of a provider batch, in order.
pub open spec fn convert_players_spec(s: Seq<SrPlayerView>) -> Seq<PlayerView>
    decreases s.len(),
{
    if s.len() == 0 {
        Seq::empty()
    } else {
        convert_players_spec(s.drop_last()).push(convert_one_spec(s.last()))
    }
}

/// Converts one provider record to the library's flat record.
fn convert_one(p: &Player) -> (r: crate::stats::Player)
    ensures
        r@ == convert_one_spec(p@),
{
    let mut name = p.preferred_name.clone();
    proof {
        reveal_strlit(" ");
    }
    name.append(" ");
    name.append(p.last_name.as_str());
    proof {
        assert(" "@ =~= seq![' ']);
        assert(name@ =~= p@.preferred_name + seq![' '] + p@.last_name);
    }
    let batter_stats = match p.statistics.hitting {
        Some(h) => if !str_eq(p.position.as_str(), "P") {
            Some(crate::stats::BatterStats {
                at_bats: h.overall.ab,
                runs: h.overall.runs.total,
                hits: h.overall.onbase.h,
                singles: h.overall.onbase.s,
                doubles: h.overall.onbase.d,
                triples: h.overall.onbase.t,
                home_runs: h.overall.onbase.hr,
                runs_batted_in: h.overall.rbi,
                sacrifice_hits: h.overall.outs.sachit,
                stolen_bases: h.overall.steal.stolen,
                caught_stealing: h.overall.steal.caught,
                walks: h.overall.onbase.bb,
                intentional_walks: h.overall.onbase.ibb,
                hit_by_pitch: h.overall.onbase.hbp,
                strikeouts: h.overall.outs.ktotal,
                ground_into_double_play: h.overall.outs.gidp,
                total_bases: h.overall.onbase.tb,
            })
        } else {
            None
        },
        None => None,
    };
    let pitcher_stats = match p.statistics.pitching {
        Some(ps) => Some(
            crate::stats::PitcherStats {
                innings_pitched: ps.overall.ip_2,
                wins: ps.overall.games.win,
                losses: ps.overall.games.loss,
                complete_games: ps.overall.games.complete,
                shutouts: ps.overall.games.shutout,
                saves: ps.overall.games.save,
                outs: ps.overall.ip_1,
                hits: ps.overall.onbase.h,
                earned_runs: ps.overall.runs.earned,
                home_runs: ps.overall.onbase.hr,
                walks: ps.overall.onbase.bb,
                intentional_walks: ps.overall.onbase.ibb,
                hit_batters: ps.overall.onbase.hbp,
                strikeouts: ps.overall.outs.ktotal,
                stolen_bases_allowed: ps.overall.steal.stolen,
                batters_grounded_into_double_plays: ps.overall.outs.gidp,
                total_bases_allowed: ps.overall.onbase.tb,
            },
        ),
        None => None,
    };
    crate::stats::Player {
        name,
        position: p.position.clone(),
        primary_position: p.primary_position.clone(),
        batter_stats,
        pitcher_stats,
    }
}

/// Flattens a batch of provider records into the library's stat
/// records, keeping order: names join, batting lines drop for players
/// listed at position P, pitching lines carry over.
pub fn convert_players(sr_players: &Vec<Player>) -> (r: Vec<crate::stats::Player>)
    ensures
        r.deep_view() == convert_players_spec(sr_players.deep_view()),
{
    let mut r: Vec<crate::stats::Player> = Vec::new();
    let mut i: usize = 0;
    proof {
        assert(sr_players.deep_view().take(0) =~= Seq::<SrPlayerView>::empty());
        assert(r.deep_view() =~= convert_players_spec(sr_players.deep_view().take(0)));
    }
    while i < sr_players.len()
        invariant
            i <= sr_players@.len(),
            sr_players.deep_view().len() == sr_players@.len(),
            r.deep_view() == convert_players_spec(sr_players.deep_view().take(i as int)),
        decreases sr_players@.len() - i,
    {
        r.push(convert_one(&sr_players[i]));
        i += 1;
        proof {
            let dv = sr_players.deep_view();
            assert(dv.take(i as int).drop_last() =~= dv.take(i - 1));
            assert(dv.take(i as int).last() == dv[i - 1]);
            assert(dv[i - 1] == sr_players@[i - 1]@);
            assert(r.deep_view() =~= convert_players_spec(dv.take(i as int)));
        }
    }
    proof {
        assert(sr_players.deep_view().take(sr_players@.len() as int) =~= sr_players.deep_view());
    }
    r
}

/// The records of players active in the game, in order: those whose
/// status is the single letter A.
pub open spec fn active_players_spec(s: Seq<SrPlayerView>) -> Seq<SrPlayerView>
    decreases s.len(),
{
    if s.len() == 0 {
        Seq::empty()
    } else {
        let rest = active_players_spec(s.drop_last());
        if s.last().status == "A"@ {
            rest.push(s.last())
        } else {
            rest
        }
    }
}

/// Keeps the active players of a batch, dropping the rest.
pub fn filter_active(players: Vec<Player>) -> (r: Vec<Player>)
    ensures
        r.deep_view() == active_players_spec(players.deep_view()),
{
    let mut r: Vec<Player> = Vec::new();
    let mut i: usize = 0;
    proof {
        assert(players.deep_view().take(0) =~= Seq::<SrPlayerView>::empty());
        assert(r.deep_view() =~= active_players_spec(players.deep_view().take(0)));
    }
    while i < players.len()
        invariant
            i <= players@.len(),
            players.deep_view().len() == players@.len(),
            r.deep_view() == active_players_spec(players.deep_view().take(i as int)),
        decreases players@.len() - i,
    {
        let p = &players[i];
        let keep = str_eq(p.status.as_str(), "A");
        if keep {
            r.push(
                Player {
                    preferred_name: p.preferred_name.clone(),
                    last_name: p.last_name.clone(),
                    status: p.status.clone(),
                    position: p.position.clone(),
                    primary_position: p.primary_position.clone(),
                    statistics: p.statistics,
                },
            );
        }
        i += 1;
        proof {
            let dv = players.deep_view();
            assert(dv.take(i as int).drop_last() =~= dv.take(i - 1));
            assert(dv.take(i as int).last() == dv[i - 1]);
            assert(dv[i - 1] == players@[i - 1]@);
            assert(r.deep_view() =~= active_players_spec(dv.take(i as int)));
        }
    }
    proof {
        assert(players.deep_view().take(players@.len() as int) =~= players.deep_view());
    }
    r
}

} // verus!
