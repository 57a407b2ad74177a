//! Provider URL construction for the schedule and game summaries.
//! The requests themselves, and the decoding of their answers, stay
//! outside the library.

use vstd::prelude::*;

verus! {

/// The string with every dash turned into a slash.
pub open spec fn slashed(s: Seq<char>) -> Seq<char> {
    Seq::new(s.len(), |i: int| if s[i] == '-' {
        '/'
    } else {
        s[i]
    })
}

/// Turns each dash of a date string into a slash, as the schedule URL
/// path wants it.
pub fn dashes_to_slashes(s: &str) -> (r: String)
    ensures
        r@ == slashed(s@),
{
    let n = s.unicode_len();
    let mut r = String::new();
    let mut i: usize = 0;
    proof {
        assert(r@ =~= slashed(s@.take(0)));
    }
    while i < n
        invariant
            n == s@.len(),
            i <= n,
            r@ == slashed(s@.take(i as int)),
        decreases n - i,
    {
        let c = s.get_char(i);
        if c == '-' {
            proof {
                reveal_strlit("/");
            }
            r.append("/");
            proof {
                assert("/"@ =~= seq!['/']);
            }
        } else {
            let piece = s.substring_char(i, i + 1);
            r.append(piece);
        }
        i += 1;
        proof {
            assert(r@ =~= slashed(s@.take(i as int)));
        }
    }
    proof {
        assert(s@.take(n as int) =~= s@);
    }
    r
}

/// The provider's daily schedule URL for a date.
pub open spec fn schedule_url_spec(api_key: Seq<char>, date: Seq<char>) -> Seq<char> {
    "https://api.sportradar.us/mlb-t6/games/"@ + slashed(date) + "/schedule.json?api_key="@
        + api_key
}

/// Builds the provider's daily schedule URL: the date's dashes become
/// path separators and the key is appended as a query parameter.
pub fn get_schedule_url(api_key: &str, date: &str) -> (r: String)
    ensures
        r@ == schedule_url_spec(api_key@, date@),
{
    let mut r = String::from_str("https://api.sportradar.us/mlb-t6/games/");
    r.append(dashes_to_slashes(date).as_str());
    r.append("/schedule.json?api_key=");
    r.append(api_key);
    r
}

/// The provider's game summary URL for a game id.
pub open spec fn game_summary_url_spec(api_key: Seq<char>, game_id: Seq<char>) -> Seq<char> {
    "https://api.sportradar.us/mlb-t6/games/"@ + game_id + "/summary.json?api_key="@ + api_key
}

/// Builds the provider's game summary URL.
pub fn get_game_summary_url(api_key: &str, game_id: &str) -> (r: String)
    ensures
        r@ == game_summary_url_spec(api_key@, game_id@),
{
    let mut r = String::from_str("https://api.sportradar.us/mlb-t6/games/");
    r.append(game_id);
    r.append("/summary.json?api_key=");
    r.append(api_key);
    r
}

} // verus!
