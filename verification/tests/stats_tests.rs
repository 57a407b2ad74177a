use mlbh2h::league::roster::{sample_roster, Roster};
use mlbh2h::league::scoring::sample_scoring_rule;
use mlbh2h::points::UNITS_PER_POINT;
use mlbh2h::stats::{
    create_fantasy_players, get_fantasy_points, inning_score, merge_same_players_stats,
    sort_by_fantasy_points, BatterStats, FantasyPlayer, InningsPitched, PitcherStats, Player,
};

fn mock_batter() -> Player {
    Player {
        name: "Trey Mancini".to_string(),
        position: "OF".to_string(),
        primary_position: "RF".to_string(),
        batter_stats: Some(BatterStats {
            at_bats: 3,
            runs: 2,
            hits: 3,
            singles: 2,
            doubles: 0,
            triples: 0,
            home_runs: 1,
            runs_batted_in: 2,
            sacrifice_hits: 0,
            stolen_bases: 0,
            caught_stealing: 0,
            walks: 2,
            intentional_walks: 0,
            hit_by_pitch: 0,
            strikeouts: 0,
            ground_into_double_play: 0,
            total_bases: 6,
        }),
        pitcher_stats: None,
    }
}

fn mock_fa_batter() -> Player {
    Player {
        name: "Andrew McCutchen".to_string(),
        position: "OF".to_string(),
        primary_position: "LF".to_string(),
        batter_stats: Some(BatterStats {
            at_bats: 3,
            runs: 0,
            hits: 1,
            singles: 1,
            doubles: 0,
            triples: 0,
            home_runs: 0,
            runs_batted_in: 0,
            sacrifice_hits: 0,
            stolen_bases: 0,
            caught_stealing: 0,
            walks: 1,
            intentional_walks: 0,
            hit_by_pitch: 0,
            strikeouts: 0,
            ground_into_double_play: 0,
            total_bases: 1,
        }),
        pitcher_stats: None,
    }
}

fn mock_pitcher_stats() -> PitcherStats {
    PitcherStats {
        innings_pitched: InningsPitched { whole: 6, thirds: 0 },
        wins: 1,
        losses: 0,
        complete_games: 0,
        shutouts: 0,
        saves: 0,
        outs: 18,
        hits: 6,
        earned_runs: 1,
        home_runs: 1,
        walks: 0,
        intentional_walks: 0,
        hit_batters: 0,
        strikeouts: 11,
        stolen_bases_allowed: 1,
        batters_grounded_into_double_plays: 1,
        total_bases_allowed: 10,
    }
}

fn mock_pitcher() -> Player {
    Player {
        name: "Blake Snell".to_string(),
        position: "P".to_string(),
        primary_position: "SP".to_string(),
        batter_stats: None,
        pitcher_stats: Some(mock_pitcher_stats()),
    }
}

fn plain_fp(player: Player, points: i64) -> FantasyPlayer {
    FantasyPlayer {
        team: String::new(),
        player,
        fantasy_points: points,
    }
}

#[test]
fn get_fantasy_points_should_return_fantasy_points() {
    let sr = sample_scoring_rule();

    let batter = mock_batter();
    let pitcher = mock_pitcher();

    // 13.50 and 32.50 points in fixed-point units
    assert_eq!(1350 * UNITS_PER_POINT / 100, get_fantasy_points(&batter, &sr));
    assert_eq!(3250 * UNITS_PER_POINT / 100, get_fantasy_points(&pitcher, &sr));
}

#[test]
fn sort_by_fantasy_points_should_sort_players_by_fan_pts_descending() {
    let p1 = plain_fp(mock_batter(), UNITS_PER_POINT);
    let p2 = plain_fp(mock_batter(), 10 * UNITS_PER_POINT);
    let p3 = plain_fp(mock_batter(), -2 * UNITS_PER_POINT);

    let players = vec![p1, p2, p3];

    let sorted = sort_by_fantasy_points(players);
    let points: Vec<i64> = sorted.iter().map(|p| p.fantasy_points).collect();

    assert_eq!(
        vec![10 * UNITS_PER_POINT, UNITS_PER_POINT, -2 * UNITS_PER_POINT],
        points
    );
}

#[test]
fn sort_should_keep_encounter_order_on_equal_points() {
    let mut a = plain_fp(mock_batter(), 5 * UNITS_PER_POINT);
    a.player.name = "first".to_string();
    let mut b = plain_fp(mock_batter(), 5 * UNITS_PER_POINT);
    b.player.name = "second".to_string();
    let mut c = plain_fp(mock_batter(), 7 * UNITS_PER_POINT);
    c.player.name = "third".to_string();

    let sorted = sort_by_fantasy_points(vec![a, b, c]);
    let names: Vec<&str> = sorted.iter().map(|p| p.player.name.as_str()).collect();

    assert_eq!(vec!["third", "first", "second"], names);
}

#[test]
fn inning_score_should_return_score() {
    // weight 3.0 points (300 centipoints): 3.0, 3.1 and 3.2 innings
    // score 9, 10 and 11 points
    assert_eq!(
        9 * UNITS_PER_POINT,
        inning_score(InningsPitched { whole: 3, thirds: 0 }, 300)
    );
    assert_eq!(
        10 * UNITS_PER_POINT,
        inning_score(InningsPitched { whole: 3, thirds: 1 }, 300)
    );
    assert_eq!(
        11 * UNITS_PER_POINT,
        inning_score(InningsPitched { whole: 3, thirds: 2 }, 300)
    );
}

#[test]
fn create_fantasy_players_should_apply_to_names_case_insensitive() {
    let sr = sample_scoring_rule();
    let r = sample_roster();

    let mut batter = mock_batter();
    batter.name = batter.name.to_lowercase();

    let players = vec![batter];

    let f_players = create_fantasy_players(&players, &sr, &r, false);

    assert_eq!(1, f_players.len());
}

#[test]
fn create_fantasy_players_should_show_fa_players_when_show_all_is_true() {
    let sr = sample_scoring_rule();
    let r = sample_roster();

    let players = vec![mock_batter(), mock_fa_batter()];

    let f_players = create_fantasy_players(&players, &sr, &r, false);

    assert_eq!(1, f_players.len());

    let f_players = create_fantasy_players(&players, &sr, &r, true);

    assert_eq!(2, f_players.len());
    let fa = f_players
        .iter()
        .find(|fp| fp.player.name == "Andrew McCutchen")
        .unwrap();
    assert_eq!("<FA>", fa.team);
}

#[test]
fn create_fantasy_players_should_scope_matches_by_role() {
    let sr = sample_scoring_rule();
    let r = Roster {
        players: vec![mlbh2h::league::roster::new_pitcher("John Doe", "A-Team")],
    };

    // same name, but a batter record: the pitcher entry must not match
    let mut batter = mock_batter();
    batter.name = "John Doe".to_string();
    assert_eq!(0, create_fantasy_players(&vec![batter], &sr, &r, false).len());

    // same name as a pitcher record: the pitcher entry matches
    let mut pitcher = mock_pitcher();
    pitcher.name = "john doe".to_string();
    let matched = create_fantasy_players(&vec![pitcher], &sr, &r, false);
    assert_eq!(1, matched.len());
    assert_eq!("A-Team", matched[0].team);
}

#[test]
fn add_stats_for_fantasy_player_should_sum_stats() {
    let p = mock_batter();

    let mut fp1 = FantasyPlayer {
        team: "A-Team".to_string(),
        player: mock_batter(),
        fantasy_points: 0,
    };
    let fp2 = FantasyPlayer {
        team: "A-Team".to_string(),
        player: mock_batter(),
        fantasy_points: 0,
    };
    fp1.add_stats(fp2);

    assert_eq!(
        p.batter_stats.unwrap().at_bats * 2,
        fp1.player.batter_stats.unwrap().at_bats
    );

    assert_eq!(true, fp1.player.pitcher_stats.is_none());
}

#[test]
fn merge_same_players_stats_should_remove_dups() {
    let fantasy_players = vec![
        plain_fp(mock_batter(), 0),
        plain_fp(mock_pitcher(), 0),
        plain_fp(mock_batter(), 0),
    ];

    let merged = merge_same_players_stats(fantasy_players);

    assert_eq!(2, merged.len());
    assert_eq!(
        mock_batter().batter_stats.unwrap().at_bats * 2,
        merged
            .into_iter()
            .find(|fp| fp.player.batter_stats.is_some())
            .unwrap()
            .player
            .batter_stats
            .unwrap()
            .at_bats
    );
}

#[test]
fn merging_innings_pitched_should_renormalize_thirds() {
    let mut a = mock_pitcher_stats();
    a.innings_pitched = InningsPitched { whole: 1, thirds: 2 };
    let b = a;

    let merged = a.add(b);

    // 1.2 + 1.2 innings is 3.1, not 0.4 more than 3
    assert_eq!(InningsPitched { whole: 3, thirds: 1 }, merged.innings_pitched);
    // every counting field doubles
    assert_eq!(2 * b.strikeouts, merged.strikeouts);
    assert_eq!(2 * b.wins, merged.wins);
    assert_eq!(2 * b.earned_runs, merged.earned_runs);

    // whole innings double plainly: 6.0 + 6.0 is 12.0
    let c = mock_pitcher_stats();
    let merged = c.add(c);
    assert_eq!(InningsPitched { whole: 12, thirds: 0 }, merged.innings_pitched);
}

#[test]
fn innings_pitched_should_reject_a_fraction_above_two_thirds() {
    assert!(InningsPitched::new(6, 0).is_some());
    assert!(InningsPitched::new(6, 2).is_some());
    assert!(InningsPitched::new(6, 3).is_none());
}

#[test]
fn end_to_end_sample_league_scores_match_the_documented_points() {
    let sr = sample_scoring_rule();
    let r = sample_roster();

    let players = vec![mock_batter(), mock_pitcher()];
    let f_players = create_fantasy_players(&players, &sr, &r, false);

    assert_eq!(2, f_players.len());
    // the pitcher outscores the batter, so he ranks first
    assert_eq!("Blake Snell", f_players[0].player.name);
    assert_eq!("LA Bulls", f_players[0].team);
    assert_eq!(3250 * UNITS_PER_POINT / 100, f_players[0].fantasy_points);
    assert_eq!("Trey Mancini", f_players[1].player.name);
    assert_eq!("NY Hotdogs", f_players[1].team);
    assert_eq!(1350 * UNITS_PER_POINT / 100, f_players[1].fantasy_points);
}

#[test]
fn score_doubles_when_every_count_doubles() {
    let sr = sample_scoring_rule();

    let single = mock_batter();
    let mut doubled = mock_batter();
    {
        let s = single.batter_stats.as_ref().unwrap();
        doubled.batter_stats = Some(BatterStats {
            at_bats: 2 * s.at_bats,
            runs: 2 * s.runs,
            hits: 2 * s.hits,
            singles: 2 * s.singles,
            doubles: 2 * s.doubles,
            triples: 2 * s.triples,
            home_runs: 2 * s.home_runs,
            runs_batted_in: 2 * s.runs_batted_in,
            sacrifice_hits: 2 * s.sacrifice_hits,
            stolen_bases: 2 * s.stolen_bases,
            caught_stealing: 2 * s.caught_stealing,
            walks: 2 * s.walks,
            intentional_walks: 2 * s.intentional_walks,
            hit_by_pitch: 2 * s.hit_by_pitch,
            strikeouts: 2 * s.strikeouts,
            ground_into_double_play: 2 * s.ground_into_double_play,
            total_bases: 2 * s.total_bases,
        });
    }

    assert_eq!(
        2 * get_fantasy_points(&single, &sr),
        get_fantasy_points(&doubled, &sr)
    );
}
