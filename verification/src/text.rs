//! Verified text helpers: decimal rendering, padding, joining and
//! substring search over `Seq<char>` views, plus the one trusted
//! case-folding wrapper the roster matching relies on.

use vstd::prelude::*;

verus! {

/// The decimal digit character for `d` in `0..10`.
pub open spec fn digit_char(d: int) -> char {
    if d == 0 {
        '0'
    } else if d == 1 {
        '1'
    } else if d == 2 {
        '2'
    } else if d == 3 {
        '3'
    } else if d == 4 {
        '4'
    } else if d == 5 {
        '5'
    } else if d == 6 {
        '6'
    } else if d == 7 {
        '7'
    } else if d == 8 {
        '8'
    } else {
        '9'
    }
}

/// Decimal rendering of a non-negative integer, most significant digit
/// first, with no leading zeroes (zero itself is "0").
pub open spec fn dec_str(n: int) -> Seq<char>
    recommends
        n >= 0,
    decreases n,
{
    if n < 10 {
        seq![digit_char(n)]
    } else {
        dec_str(n / 10).push(digit_char(n % 10))
    }
}

/// Two-digit zero-padded rendering of `n` in `0..100`.
pub open spec fn two_digit_str(n: int) -> Seq<char> {
    seq![digit_char(n / 10), digit_char(n % 10)]
}

/// Four-digit zero-padded rendering of `n` in `0..10000`.
pub open spec fn four_digit_str(n: int) -> Seq<char> {
    seq![
        digit_char(n / 1000),
        digit_char((n / 100) % 10),
        digit_char((n / 10) % 10),
        digit_char(n % 10),
    ]
}

/// The one-character string for a decimal digit.
pub fn digit_lit(d: u64) -> (r: &'static str)
    requires
        d < 10,
    ensures
        r@ == seq![digit_char(d as int)],
{
    proof {
        reveal_strlit("0");
        reveal_strlit("1");
        reveal_strlit("2");
        reveal_strlit("3");
        reveal_strlit("4");
        reveal_strlit("5");
        reveal_strlit("6");
        reveal_strlit("7");
        reveal_strlit("8");
        reveal_strlit("9");
    }
    let r = match d {
        0 => "0",
        1 => "1",
        2 => "2",
        3 => "3",
        4 => "4",
        5 => "5",
        6 => "6",
        7 => "7",
        8 => "8",
        _ => "9",
    };
    proof {
        assert(r@ =~= seq![digit_char(d as int)]);
    }
    r
}

/// Renders `n` in decimal.
pub fn u64_to_string(n: u64) -> (r: String)
    ensures
        r@ == dec_str(n as int),
    decreases n,
{
    if n < 10 {
        String::from_str(digit_lit(n))
    } else {
        let mut s = u64_to_string(n / 10);
        s.append(digit_lit(n % 10));
        proof {
            assert(s@ =~= dec_str(n as int));
        }
        s
    }
}

/// Renders `n` in decimal.
pub fn u32_to_string(n: u32) -> (r: String)
    ensures
        r@ == dec_str(n as int),
{
    u64_to_string(n as u64)
}

/// Renders `n < 100` as exactly two digits.
pub fn two_digit_string(n: u64) -> (r: String)
    requires
        n < 100,
    ensures
        r@ == two_digit_str(n as int),
{
    let mut s = String::from_str(digit_lit(n / 10));
    s.append(digit_lit(n % 10));
    proof {
        assert(s@ =~= two_digit_str(n as int));
    }
    s
}

/// Renders `n < 10000` as exactly four digits.
pub fn four_digit_string(n: u64) -> (r: String)
    requires
        n < 10000,
    ensures
        r@ == four_digit_str(n as int),
{
    let mut s = String::from_str(digit_lit(n / 1000));
    s.append(digit_lit((n / 100) % 10));
    s.append(digit_lit((n / 10) % 10));
    s.append(digit_lit(n % 10));
    proof {
        assert(s@ =~= four_digit_str(n as int));
    }
    s
}

/// True exactly when the two strings have the same characters.
pub fn str_eq(a: &str, b: &str) -> (r: bool)
    ensures
        r == (a@ == b@),
{
    let alen = a.unicode_len();
    let blen = b.unicode_len();
    if alen != blen {
        return false;
    }
    let mut i: usize = 0;
    while i < alen
        invariant
            alen == a@.len(),
            blen == b@.len(),
            alen == blen,
            i <= alen,
            forall|j: int| 0 <= j < i ==> a@[j] == b@[j],
        decreases alen - i,
    {
        if a.get_char(i) != b.get_char(i) {
            return false;
        }
        i += 1;
    }
    proof {
        assert(a@ =~= b@);
    }
    true
}

/// A run of `n` spaces.
pub open spec fn spaces(n: int) -> Seq<char> {
    Seq::new(n as nat, |i: int| ' ')
}

/// `s` left-aligned in a field of `w` characters; longer strings are
/// kept whole.
pub open spec fn pad_right_spec(s: Seq<char>, w: int) -> Seq<char> {
    if s.len() >= w {
        s
    } else {
        s + spaces(w - s.len())
    }
}

/// `s` right-aligned in a field of `w` characters; longer strings are
/// kept whole.
pub open spec fn pad_left_spec(s: Seq<char>, w: int) -> Seq<char> {
    if s.len() >= w {
        s
    } else {
        spaces(w - s.len()) + s
    }
}

/// Left-aligns `s` in a field of `w` characters.
pub fn pad_right(s: &str, w: usize) -> (r: String)
    ensures
        r@ == pad_right_spec(s@, w as int),
{
    proof {
        reveal_strlit(" ");
    }
    let n = s.unicode_len();
    let mut r = s.to_owned();
    let mut i = n;
    proof {
        assert(" "@ =~= seq![' ']);
        assert(s@ + spaces(0) =~= s@);
    }
    while i < w
        invariant
            n == s@.len(),
            n <= i,
            n >= w ==> i == n,
            n < w ==> i <= w,
            r@ == s@ + spaces(i - n),
        decreases w - i,
    {
        r.append(" ");
        i += 1;
        proof {
            reveal_strlit(" ");
            assert(" "@ =~= seq![' ']);
            assert(r@ =~= s@ + spaces(i - n));
        }
    }
    proof {
        if n >= w {
            assert(r@ =~= s@);
        }
    }
    r
}

/// Right-aligns `s` in a field of `w` characters.
pub fn pad_left(s: &str, w: usize) -> (r: String)
    ensures
        r@ == pad_left_spec(s@, w as int),
{
    proof {
        reveal_strlit(" ");
    }
    let n = s.unicode_len();
    if n >= w {
        return s.to_owned();
    }
    let mut r = String::new();
    let mut i = n;
    proof {
        assert(" "@ =~= seq![' ']);
        assert(r@ =~= spaces(0));
    }
    while i < w
        invariant
            n == s@.len(),
            n <= i <= w,
            n < w,
            r@ == spaces(i - n),
        decreases w - i,
    {
        r.append(" ");
        i += 1;
        proof {
            reveal_strlit(" ");
            assert(" "@ =~= seq![' ']);
            assert(r@ =~= spaces(i - n));
        }
    }
    r.append(s);
    r
}

/// The items joined with `sep` between consecutive items.
pub open spec fn join_sep(items: Seq<Seq<char>>, sep: Seq<char>) -> Seq<char>
    decreases items.len(),
{
    if items.len() == 0 {
        Seq::empty()
    } else if items.len() == 1 {
        items[0]
    } else {
        join_sep(items.drop_last(), sep) + sep + items.last()
    }
}

/// Joins the strings with `sep` between consecutive items.
pub fn join_with(items: &Vec<String>, sep: &str) -> (r: String)
    ensures
        r@ == join_sep(items.deep_view(), sep@),
{
    let mut r = String::new();
    let mut i: usize = 0;
    while i < items.len()
        invariant
            i <= items@.len(),
            items.deep_view().len() == items@.len(),
            r@ == join_sep(items.deep_view().take(i as int), sep@),
        decreases items@.len() - i,
    {
        if i > 0 {
            r.append(sep);
        }
        r.append(items[i].as_str());
        i += 1;
        proof {
            let dv = items.deep_view();
            assert(dv.take(i as int).drop_last() =~= dv.take(i - 1));
            assert(dv.take(i as int).last() == dv[i - 1]);
            assert(dv[i - 1] == items@[i - 1]@);
        }
    }
    proof {
        assert(items.deep_view().take(items@.len() as int) =~= items.deep_view());
    }
    r
}

/// True exactly when `sub` occurs as a contiguous run inside `s`.
pub open spec fn contains_sub(s: Seq<char>, sub: Seq<char>) -> bool {
    exists|i: int|
        0 <= i && i + sub.len() <= s.len() && #[trigger] s.subrange(i, i + sub.len() as int)
            == sub
}

/// Substring search: true exactly when `sub` occurs inside `s`.
pub fn str_contains(s: &str, sub: &str) -> (r: bool)
    ensures
        r == contains_sub(s@, sub@),
{
    let n = s.unicode_len();
    let m = sub.unicode_len();
    if m > n {
        return false;
    }
    if m == 0 {
        proof {
            assert(s@.subrange(0, 0 + sub@.len() as int) =~= sub@);
        }
        return true;
    }
    let mut i: usize = 0;
    while i <= n - m
        invariant
            n == s@.len(),
            m == sub@.len(),
            1 <= m <= n,
            i <= n - m + 1,
            forall|j: int| 0 <= j < i ==> #[trigger] s@.subrange(j, j + sub@.len() as int) != sub@,
        decreases n - i,
    {
        let piece = s.substring_char(i, i + m);
        if str_eq(piece, sub) {
            proof {
                assert(s@.subrange(i as int, i + sub@.len() as int) == sub@);
            }
            return true;
        }
        i += 1;
    }
    proof {
        assert(forall|j: int|
            0 <= j && j + sub@.len() <= s@.len() ==> #[trigger] s@.subrange(j, j + sub@.len() as int)
                != sub@);
    }
    false
}

/// The byte count of `c` in UTF-8.
pub open spec fn char_bytes(c: char) -> int {
    if (c as int) < 0x80 {
        1
    } else if (c as int) < 0x800 {
        2
    } else if (c as int) < 0x10000 {
        3
    } else {
        4
    }
}

/// The number of leading characters of `s` whose UTF-8 encoding fits in
/// `max` bytes.
pub open spec fn fit_len(s: Seq<char>, max: int) -> nat
    decreases s.len(),
{
    if s.len() == 0 || char_bytes(s[0]) > max {
        0
    } else {
        1 + fit_len(s.skip(1), max - char_bytes(s[0]))
    }
}

/// The longest prefix of `s` whose UTF-8 encoding fits in `max` bytes:
/// the table renderer truncates names at a byte budget without
/// splitting a character.
pub fn truncate_bytes(s: &str, max: usize) -> (r: String)
    ensures
        r@ == s@.subrange(0, fit_len(s@, max as int) as int),
{
    let n = s.unicode_len();
    let mut i: usize = 0;
    let mut used: usize = 0;
    proof {
        assert(s@.skip(0) =~= s@);
    }
    while i < n
        invariant
            n == s@.len(),
            i <= n,
            used <= max,
            fit_len(s@, max as int) == i + fit_len(s@.skip(i as int), max - used),
        decreases n - i,
    {
        let c = s.get_char(i);
        let u = c as u32;
        let cb: usize = if u < 0x80 {
            1
        } else if u < 0x800 {
            2
        } else if u < 0x10000 {
            3
        } else {
            4
        };
        proof {
            assert(cb as int == char_bytes(s@.skip(i as int)[0]));
        }
        if cb > max - used {
            proof {
                assert(fit_len(s@.skip(i as int), max - used) == 0);
            }
            let r = s.substring_char(0, i);
            return r.to_owned();
        }
        used += cb;
        i += 1;
        proof {
            assert(s@.skip(i - 1).skip(1) =~= s@.skip(i as int));
        }
    }
    proof {
        assert(s@.skip(n as int).len() == 0);
        assert(fit_len(s@, max as int) == n);
    }
    let r = s.substring_char(0, i);
    r.to_owned()
}

/// The Unicode lowercase form of `s`, named but not written out: the
/// mapping is a fixed function of the characters alone.
pub uninterp spec fn lower_of(s: Seq<char>) -> Seq<char>;

/// Relies on str::to_lowercase: the Unicode lowercase mapping, a
/// function of the characters alone, used for case-insensitive name
/// comparison.
#[verifier::external_body]
pub fn lowercase(s: &str) -> (r: String)
    ensures
        r@ == lower_of(s@),
{
    s.to_lowercase()
}

} // verus!
