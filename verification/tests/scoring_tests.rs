use mlbh2h::league::scoring::sample_scoring_rule;

#[test]
fn get_header_items_should_return_header_items_to_display() {
    let scoring = sample_scoring_rule();
    let items = scoring.get_header_items();

    assert_eq!(14, items.len());
    assert_eq!(
        "Player,Team,FanPts,Pos,B.R,B.H,B.HR,B.RBI,B.SB,P.IP,P.W,P.SV,P.ER,P.K",
        items.join(",")
    );
}

#[test]
fn get_header_items_for_batter_should_return_header_items_for_batter() {
    let scoring = sample_scoring_rule();
    let items = scoring.get_header_items_for_batter();

    assert_eq!(9, items.len());
    assert_eq!(
        "Player,Team,FanPts,Pos,B.R,B.H,B.HR,B.RBI,B.SB",
        items.join(",")
    );
}

#[test]
fn get_header_items_for_pitcher_should_return_header_items_for_pitcher() {
    let scoring = sample_scoring_rule();
    let items = scoring.get_header_items_for_pitcher();

    assert_eq!(9, items.len());
    assert_eq!(
        "Player,Team,FanPts,Pos,P.IP,P.W,P.SV,P.ER,P.K",
        items.join(",")
    );
}

#[test]
fn sample_scoring_rule_should_hold_the_documented_weights() {
    let scoring = sample_scoring_rule();

    assert_eq!(50, scoring.batter.hits);
    assert_eq!(200, scoring.batter.runs);
    assert_eq!(400, scoring.batter.home_runs);
    assert_eq!(-50, scoring.pitcher.earned_runs);
    assert_eq!(100, scoring.pitcher.innings_pitched);
    assert_eq!(500, scoring.pitcher.wins);
}

#[test]
fn all_zero_rule_should_yield_only_the_common_columns() {
    let mut scoring = sample_scoring_rule();
    scoring.batter.runs = 0;
    scoring.batter.hits = 0;
    scoring.batter.home_runs = 0;
    scoring.batter.runs_batted_in = 0;
    scoring.batter.stolen_bases = 0;
    scoring.pitcher.innings_pitched = 0;
    scoring.pitcher.wins = 0;
    scoring.pitcher.saves = 0;
    scoring.pitcher.earned_runs = 0;
    scoring.pitcher.strikeouts = 0;

    assert_eq!("Player,Team,FanPts,Pos", scoring.get_header_items().join(","));
    assert_eq!(
        "Player,Team,FanPts,Pos",
        scoring.get_header_items_for_batter().join(",")
    );
    assert_eq!(
        "Player,Team,FanPts,Pos",
        scoring.get_header_items_for_pitcher().join(",")
    );
}

#[test]
fn role_headers_should_carve_the_full_header_in_two() {
    let scoring = sample_scoring_rule();
    let full = scoring.get_header_items();
    let batter = scoring.get_header_items_for_batter();
    let pitcher = scoring.get_header_items_for_pitcher();

    let common = ["Player", "Team", "FanPts", "Pos"];
    assert_eq!(common.to_vec(), batter[..4].to_vec());
    assert_eq!(common.to_vec(), pitcher[..4].to_vec());

    let mut union = batter.clone();
    union.extend_from_slice(&pitcher[4..]);
    assert_eq!(full, union);
}
