use mlbh2h::stats::schedule::get_schedule_url;
use mlbh2h::utils::{date_strs, weekly_date_strs};

#[test]
fn date_strs_should_return_vector_of_strings() {
    let result_1d = date_strs("2019-06-17", "1d");
    assert_eq!(vec!["2019-06-17".to_string()], result_1d);

    let result_all = date_strs("2019-04-02", "all");
    assert_eq!(
        vec![
            "2019-03-28".to_string(),
            "2019-03-29".to_string(),
            "2019-03-30".to_string(),
            "2019-03-31".to_string(),
            "2019-04-01".to_string(),
            "2019-04-02".to_string(),
        ],
        result_all
    );

    let result_1w = date_strs("2019-06-05", "1w");
    assert_eq!(
        vec![
            "2019-06-05".to_string(),
            "2019-06-04".to_string(),
            "2019-06-03".to_string(),
            "2019-06-02".to_string(),
            "2019-06-01".to_string(),
            "2019-05-31".to_string(),
            "2019-05-30".to_string(),
        ],
        result_1w
    );
}

#[test]
fn date_strs_should_skip_the_break_going_backward() {
    // a week ending just after the break reaches back past it
    let result = date_strs("2019-07-12", "1w");
    assert_eq!(
        vec![
            "2019-07-12".to_string(),
            "2019-07-11".to_string(),
            "2019-07-07".to_string(),
            "2019-07-06".to_string(),
            "2019-07-05".to_string(),
            "2019-07-04".to_string(),
            "2019-07-03".to_string(),
        ],
        result
    );
}

#[test]
fn date_strs_all_should_skip_the_break_and_end_at_the_anchor() {
    let result = date_strs("2019-07-12", "all");
    assert!(!result.contains(&"2019-07-08".to_string()));
    assert!(!result.contains(&"2019-07-09".to_string()));
    assert!(!result.contains(&"2019-07-10".to_string()));
    assert!(result.contains(&"2019-03-28".to_string()));
    assert!(result.contains(&"2019-07-11".to_string()));
    assert_eq!(Some(&"2019-07-12".to_string()), result.last());
    // the season start through the anchor, minus the three break dates
    assert_eq!(107 - 3, result.len());
}

#[test]
fn weekly_date_strs_should_return_vector_of_date_strings() {
    let empty: Vec<String> = vec![];
    assert_eq!(empty, weekly_date_strs("2019-03-27"));
    assert_eq!(
        vec!["2019-03-28".to_string()],
        weekly_date_strs("2019-03-28")
    );
    assert_eq!(
        vec![
            "2019-03-28".to_string(),
            "2019-03-29".to_string(),
            "2019-03-30".to_string(),
            "2019-03-31".to_string(),
        ],
        weekly_date_strs("2019-03-31")
    );
    assert_eq!(
        vec![
            "2019-07-01".to_string(),
            "2019-07-02".to_string(),
            "2019-07-03".to_string(),
            "2019-07-04".to_string(),
            "2019-07-05".to_string(),
            "2019-07-06".to_string(),
            "2019-07-07".to_string(),
        ],
        weekly_date_strs("2019-07-07")
    );
    assert_eq!(empty, weekly_date_strs("2019-07-08"));
    assert_eq!(empty, weekly_date_strs("2019-07-09"));
    assert_eq!(empty, weekly_date_strs("2019-07-10"));
    assert_eq!(
        vec!["2019-07-11".to_string()],
        weekly_date_strs("2019-07-11")
    );
    assert_eq!(
        vec![
            "2019-07-11".to_string(),
            "2019-07-12".to_string(),
            "2019-07-13".to_string(),
            "2019-07-14".to_string(),
            "2019-07-15".to_string(),
        ],
        weekly_date_strs("2019-07-15")
    );
    assert_eq!(
        vec![
            "2019-07-11".to_string(),
            "2019-07-12".to_string(),
            "2019-07-13".to_string(),
            "2019-07-14".to_string(),
            "2019-07-15".to_string(),
            "2019-07-16".to_string(),
            "2019-07-17".to_string(),
            "2019-07-18".to_string(),
            "2019-07-19".to_string(),
            "2019-07-20".to_string(),
            "2019-07-21".to_string(),
        ],
        weekly_date_strs("2019-07-21")
    );
}

#[test]
fn get_schedule_url_should_return_api_url() {
    assert_eq!(
        "https://api.sportradar.us/mlb-t6/games/2019/04/01/schedule.json?api_key=key",
        get_schedule_url("key", "2019-04-01")
    );
}
