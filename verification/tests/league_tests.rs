use mlbh2h::league::roster::{sample_roster, PlayerType};
use mlbh2h::league::{validate_league_name, InvalidLeagueName, LeagueNameConflict};
use mlbh2h::stats::sportradar::{
    convert_players, filter_active, HitterOnBaseStats, HitterRunStats, HittingOverallStats,
    HittingStats, OutStats, PitcherGameStats, PitcherOnBaseStats, PitcherRunStats,
    PitchingOverallStats, PitchingStats, Player, Stats, StealStats,
};
use mlbh2h::stats::InningsPitched;

#[test]
fn sample_roster_should_hold_sixteen_entries() {
    let roster = sample_roster();

    assert_eq!(16, roster.players.len());
    assert_eq!("Cody Bellinger", roster.players[0].name);
    assert!(matches!(roster.players[0].role, PlayerType::Batter));
    assert_eq!("LA Bulls", roster.players[0].team);
    assert_eq!("Josh Hader", roster.players[15].name);
    assert!(matches!(roster.players[15].role, PlayerType::Pitcher));
    assert_eq!("Seattle Coffees", roster.players[15].team);
}

#[test]
fn validate_league_name_should_reject_a_leading_underscore() {
    assert!(validate_league_name("my-league").is_ok());
    assert!(validate_league_name("").is_ok());
    assert!(validate_league_name("_private").is_err());
}

#[test]
fn league_errors_should_describe_themselves() {
    let conflict = LeagueNameConflict("sample".to_string());
    assert_eq!(
        "league with name sample already exists, use other name",
        conflict.message()
    );
    assert_eq!(
        "league name should not start with _",
        InvalidLeagueName.message()
    );
}

#[test]
fn version_get_should_return_the_crate_version() {
    assert_eq!("0.1.0", mlbh2h::version::get());
}

fn out_stats(ktotal: u32, gidp: u32, sachit: u32) -> OutStats {
    OutStats {
        po: 0,
        fo: 0,
        fidp: 0,
        lo: 0,
        lidp: 0,
        go: 0,
        gidp,
        klook: 0,
        kswing: 0,
        ktotal,
        sacfly: 0,
        sachit,
    }
}

fn sr_batter(name: &str, status: &str) -> Player {
    Player {
        preferred_name: name.to_string(),
        last_name: "Trout".to_string(),
        status: status.to_string(),
        position: "OF".to_string(),
        primary_position: "CF".to_string(),
        statistics: Stats {
            hitting: Some(HittingStats {
                overall: HittingOverallStats {
                    ab: 4,
                    rbi: 2,
                    onbase: HitterOnBaseStats {
                        s: 1,
                        d: 1,
                        t: 0,
                        hr: 1,
                        tb: 9,
                        bb: 0,
                        ibb: 0,
                        hbp: 0,
                        fc: 0,
                        roe: 0,
                        h: 3,
                        cycle: 0,
                    },
                    runs: HitterRunStats { total: 2 },
                    outs: out_stats(1, 0, 0),
                    steal: StealStats { caught: 0, stolen: 1, pickoff: 0 },
                },
            }),
            pitching: None,
        },
    }
}

fn sr_pitcher() -> Player {
    Player {
        preferred_name: "Trevor".to_string(),
        last_name: "Cahill".to_string(),
        status: "A".to_string(),
        position: "P".to_string(),
        primary_position: "SP".to_string(),
        statistics: Stats {
            hitting: None,
            pitching: Some(PitchingStats {
                overall: PitchingOverallStats {
                    lob: 0,
                    pitch_count: 98,
                    wp: 0,
                    bk: 0,
                    ip_1: 18,
                    ip_2: InningsPitched { whole: 6, thirds: 0 },
                    bf: 24,
                    onbase: PitcherOnBaseStats {
                        s: 3,
                        d: 1,
                        t: 0,
                        hr: 1,
                        tb: 10,
                        bb: 0,
                        ibb: 0,
                        hbp: 0,
                        fc: 0,
                        roe: 0,
                        h: 5,
                    },
                    runs: PitcherRunStats { total: 1, unearned: 0, earned: 1 },
                    outs: out_stats(7, 1, 0),
                    steal: StealStats { caught: 0, stolen: 0, pickoff: 0 },
                    games: PitcherGameStats {
                        start: 1,
                        play: 1,
                        finish: 0,
                        svo: 0,
                        qstart: 1,
                        shutout: 0,
                        complete: 0,
                        win: 1,
                        loss: 0,
                        save: 0,
                        hold: 0,
                        blown_save: 0,
                        team_win: 1,
                        team_loss: 0,
                    },
                },
            }),
        },
    }
}

#[test]
fn convert_players_should_flatten_provider_records() {
    let converted = convert_players(&vec![sr_batter("Mike", "A"), sr_pitcher()]);

    assert_eq!(2, converted.len());

    let batter = &converted[0];
    assert_eq!("Mike Trout", batter.name);
    assert_eq!("CF", batter.primary_position);
    assert!(batter.batter_stats.is_some());
    assert!(batter.pitcher_stats.is_none());
    let bs = batter.batter_stats.as_ref().unwrap();
    assert_eq!(4, bs.at_bats);
    assert_eq!(2, bs.runs);
    assert_eq!(3, bs.hits);
    assert_eq!(1, bs.home_runs);
    assert_eq!(9, bs.total_bases);

    let pitcher = &converted[1];
    assert_eq!("Trevor Cahill", pitcher.name);
    assert!(pitcher.batter_stats.is_none());
    assert!(pitcher.pitcher_stats.is_some());
    let ps = pitcher.pitcher_stats.as_ref().unwrap();
    assert_eq!(InningsPitched { whole: 6, thirds: 0 }, ps.innings_pitched);
    assert_eq!(1, ps.wins);
    assert_eq!(7, ps.strikeouts);
    assert_eq!(18, ps.outs);
}

#[test]
fn filter_active_should_keep_only_status_a() {
    let players = vec![sr_batter("Mike", "A"), sr_batter("Bench", "IL"), sr_pitcher()];
    let active = filter_active(players);
    assert_eq!(2, active.len());
    assert_eq!("Mike", active[0].preferred_name);
    assert_eq!("Trevor", active[1].preferred_name);
}
