use mlbh2h::league::roster::{new_batter, new_pitcher, sample_roster, Roster};
use mlbh2h::league::scoring::sample_scoring_rule;
use mlbh2h::points::UNITS_PER_POINT;
use mlbh2h::stats::output::{
    fanpts_string, get_header_string, get_player_stats_string, outstanding_players,
    scores_per_team, team_points_row, teams_of_roster, top_n_split,
};
use mlbh2h::stats::{
    get_fantasy_points, BatterStats, FantasyPlayer, InningsPitched, PitcherStats, Player,
};

fn mock_batter() -> Player {
    Player {
        name: "Trey Mancini".to_string(),
        position: "OF".to_string(),
        primary_position: "RF".to_string(),
        batter_stats: Some(BatterStats {
            at_bats: 3,
            runs: 2,
            hits: 3,
            singles: 2,
            doubles: 0,
            triples: 0,
            home_runs: 1,
            runs_batted_in: 2,
            sacrifice_hits: 0,
            stolen_bases: 0,
            caught_stealing: 0,
            walks: 2,
            intentional_walks: 0,
            hit_by_pitch: 0,
            strikeouts: 0,
            ground_into_double_play: 0,
            total_bases: 6,
        }),
        pitcher_stats: None,
    }
}

fn mock_pitcher() -> Player {
    Player {
        name: "Blake Snell".to_string(),
        position: "P".to_string(),
        primary_position: "SP".to_string(),
        batter_stats: None,
        pitcher_stats: Some(PitcherStats {
            innings_pitched: InningsPitched { whole: 6, thirds: 0 },
            wins: 1,
            losses: 0,
            complete_games: 0,
            shutouts: 0,
            saves: 0,
            outs: 18,
            hits: 6,
            earned_runs: 1,
            home_runs: 1,
            walks: 0,
            intentional_walks: 0,
            hit_batters: 0,
            strikeouts: 11,
            stolen_bases_allowed: 1,
            batters_grounded_into_double_plays: 1,
            total_bases_allowed: 10,
        }),
    }
}

#[test]
fn get_header_string_should_return_csv_or_pretty_format_string() {
    let headers: Vec<_> = vec!["Player", "Team", "FanPts", "Pos", "B.HR", "P.K"]
        .into_iter()
        .map(std::string::ToString::to_string)
        .collect();

    let csv = get_header_string(&headers, true);
    assert_eq!("Player,Team,FanPts,Pos,B.HR,P.K", csv);

    let pretty = get_header_string(&headers, false);
    assert_eq!("Player            Team      FanPts Pos B.HR P.K ", pretty);
}

#[test]
fn fantasy_player_get_stats_string_should_return_string() {
    let sr = sample_scoring_rule();

    let header_items = sr.get_header_items();

    let batter = mock_batter();
    let fp = FantasyPlayer {
        team: "Avengers".to_string(),
        fantasy_points: get_fantasy_points(&batter, &sr),
        player: batter,
    };

    assert_eq!(
        "Trey Mancini,Avengers,13.50,RF,2,3,1,2,0,,,,,",
        get_player_stats_string(&fp, &header_items, true)
    );
    assert_eq!(
        "Trey Mancini      Avengers   13.50 RF  2   3   1    2     0                             ",
        get_player_stats_string(&fp, &header_items, false)
    );

    let pitcher = mock_pitcher();
    let fp = FantasyPlayer {
        team: "Avengers".to_string(),
        fantasy_points: get_fantasy_points(&pitcher, &sr),
        player: pitcher,
    };

    assert_eq!(
        "Blake Snell,Avengers,32.50,SP,,,,,,6,1,0,1,11",
        get_player_stats_string(&fp, &header_items, true)
    );
    assert_eq!(
        "Blake Snell       Avengers   32.50 SP                          6      1   0    1    11  ",
        get_player_stats_string(&fp, &header_items, false)
    );
}

#[test]
fn fractional_innings_should_render_with_their_thirds() {
    let sr = sample_scoring_rule();
    let header_items = sr.get_header_items();
    let mut pitcher = mock_pitcher();
    if let Some(ps) = pitcher.pitcher_stats.as_mut() {
        ps.innings_pitched = InningsPitched { whole: 6, thirds: 1 };
    }
    let fp = FantasyPlayer {
        team: "Avengers".to_string(),
        fantasy_points: get_fantasy_points(&pitcher, &sr),
        player: pitcher,
    };
    // 6.1 innings under the sample rule: one more third of a point
    assert_eq!(
        "Blake Snell,Avengers,32.83,SP,,,,,,6.1,1,0,1,11",
        get_player_stats_string(&fp, &header_items, true)
    );
}

#[test]
fn fanpts_string_should_render_two_decimals() {
    assert_eq!("13.50", fanpts_string(1350 * UNITS_PER_POINT / 100));
    assert_eq!("0.00", fanpts_string(0));
    assert_eq!("-0.50", fanpts_string(-UNITS_PER_POINT / 2));
    // a third of a point rounds to the nearest hundredth
    assert_eq!("0.33", fanpts_string(100));
    assert_eq!("0.67", fanpts_string(200));
}

#[test]
fn teams_of_roster_should_return_sorted_unique_teams() {
    let r = sample_roster();
    let teams = teams_of_roster(&r);
    assert_eq!(
        vec!["Chicago Pizzas", "LA Bulls", "NY Hotdogs", "Seattle Coffees"],
        teams
    );
}

#[test]
fn teams_of_roster_should_collapse_scattered_duplicates() {
    // one team listed twice with another in between: it still appears once
    let r = Roster {
        players: vec![
            new_batter("a", "Reds"),
            new_batter("b", "Blues"),
            new_pitcher("c", "Reds"),
        ],
    };
    let teams = teams_of_roster(&r);
    assert_eq!(vec!["Blues", "Reds"], teams);
}

fn fp(name: &str, team: &str, pos: &str, points: i64) -> FantasyPlayer {
    let mut p = mock_batter();
    p.name = name.to_string();
    p.primary_position = pos.to_string();
    FantasyPlayer {
        team: team.to_string(),
        player: p,
        fantasy_points: points,
    }
}

#[test]
fn scores_per_team_should_sum_and_rank_teams() {
    let players = vec![
        fp("a", "Reds", "RF", 10 * UNITS_PER_POINT),
        fp("b", "Blues", "RF", 25 * UNITS_PER_POINT),
        fp("c", "Reds", "RF", 20 * UNITS_PER_POINT),
    ];
    let totals = scores_per_team(&players);
    assert_eq!(2, totals.len());
    assert_eq!("Reds", totals[0].team);
    assert_eq!(30 * UNITS_PER_POINT, totals[0].fantasy_points);
    assert_eq!("Blues", totals[1].team);
    assert_eq!(25 * UNITS_PER_POINT, totals[1].fantasy_points);
}

#[test]
fn top_n_split_should_cap_each_role_independently() {
    let players = vec![
        fp("b1", "T", "RF", 50),
        fp("p1", "T", "SP", 40),
        fp("b2", "T", "CF", 30),
        fp("b3", "T", "LF", 20),
        fp("p2", "T", "RP", 10),
        fp("p3", "T", "SP", 5),
    ];
    let (batters, pitchers) = top_n_split(&players, 2);
    let bn: Vec<&str> = batters.iter().map(|x| x.player.name.as_str()).collect();
    let pn: Vec<&str> = pitchers.iter().map(|x| x.player.name.as_str()).collect();
    assert_eq!(vec!["b1", "b2"], bn);
    assert_eq!(vec!["p1", "p2"], pn);
}

#[test]
fn outstanding_players_should_apply_role_thresholds() {
    let sr = sample_scoring_rule();
    let batter = mock_batter();
    let pitcher = mock_pitcher();
    let players = vec![
        FantasyPlayer {
            team: "<FA>".to_string(),
            fantasy_points: get_fantasy_points(&batter, &sr),
            player: batter,
        },
        FantasyPlayer {
            team: "<FA>".to_string(),
            fantasy_points: get_fantasy_points(&pitcher, &sr),
            player: pitcher,
        },
    ];

    // batter threshold 13.5 keeps the batter; pitcher threshold 40 drops
    // the pitcher
    let hits = outstanding_players(&players, 1350 * UNITS_PER_POINT / 100, 40 * UNITS_PER_POINT);
    assert_eq!(1, hits.len());
    assert_eq!("Trey Mancini", hits[0].player.name);

    // raising the batter threshold past 13.5 drops the batter too
    let hits = outstanding_players(&players, 14 * UNITS_PER_POINT, 40 * UNITS_PER_POINT);
    assert_eq!(0, hits.len());
}

#[test]
fn team_points_row_should_give_zero_for_absent_teams() {
    let teams = vec!["Blues".to_string(), "Greens".to_string(), "Reds".to_string()];
    let players = vec![
        fp("a", "Reds", "RF", 10 * UNITS_PER_POINT),
        fp("b", "Blues", "RF", 25 * UNITS_PER_POINT),
        fp("c", "Reds", "RF", 20 * UNITS_PER_POINT),
    ];
    let row = team_points_row(&teams, &players);
    assert_eq!(
        vec![25 * UNITS_PER_POINT, 0, 30 * UNITS_PER_POINT],
        row
    );
}
