use vstd::prelude::*;
use crate::moment::{Moment, MOMENT_LIMIT};
use crate::text::{decimal, digit_char, two_digits};
use vstd::arithmetic::div_mod::{lemma_fundamental_div_mod, lemma_mod_multiples_vanish};

verus! {

/// Why a clock entry was refused.
#[derive(Clone, Copy, Debug, PartialEq, Eq, Structural)]
pub enum ParseError {
    /// The text is not one or two digits, a colon and two digits, with
    /// optional white space around them.
    MalformedInput,
    /// The hour is above 29, the minute above 59, or the resulting moment
    /// lies outside the representable calendar range.
    InvalidRange,
}

/// White space as Unicode defines it (the `White_Space` property).
pub open spec fn is_space(c: char) -> bool {
    ('\u{9}' <= c && c <= '\u{d}') || c == ' ' || c == '\u{85}' || c == '\u{a0}'
        || c == '\u{1680}' || ('\u{2000}' <= c && c <= '\u{200a}') || c == '\u{2028}'
        || c == '\u{2029}' || c == '\u{202f}' || c == '\u{205f}' || c == '\u{3000}'
}

pub open spec fn is_digit(c: char) -> bool {
    '0' <= c && c <= '9'
}

pub open spec fn digit_value(c: char) -> int {
    c as int - '0' as int
}

/// Every character of `s` is white space.
pub open spec fn blank(s: Seq<char>) -> bool {
    forall|i: int| 0 <= i < s.len() ==> is_space(#[trigger] s[i])
}

/// `t` is a clock token: one or two digits, a colon, and two digits.
pub open spec fn clock_token(t: Seq<char>) -> bool {
    ||| (t.len() == 4 && is_digit(t[0]) && t[1] == ':' && is_digit(t[2]) && is_digit(t[3]))
    ||| (t.len() == 5 && is_digit(t[0]) && is_digit(t[1]) && t[2] == ':' && is_digit(t[3])
        && is_digit(t[4]))
}

/// The hour written in a clock token.
pub open spec fn token_hour(t: Seq<char>) -> int {
    if t.len() == 4 {
        digit_value(t[0])
    } else {
        10 * digit_value(t[0]) + digit_value(t[1])
    }
}

/// The minute written in a clock token.
pub open spec fn token_minute(t: Seq<char>) -> int {
    10 * digit_value(t[t.len() - 2]) + digit_value(t[t.len() - 1])
}

/// `s[a..b]` is a clock token with only white space before and after it.
pub open spec fn framed(s: Seq<char>, a: int, b: int) -> bool {
    &&& 0 <= a <= b <= s.len()
    &&& blank(s.subrange(0, a))
    &&& blank(s.subrange(b, s.len() as int))
    &&& clock_token(s.subrange(a, b))
}

/// `s` has the shape of a clock entry.
pub open spec fn well_shaped(s: Seq<char>) -> bool {
    exists|a: int, b: int| framed(s, a, b)
}

/// The clock token of a well-shaped entry.
pub open spec fn entry_token(s: Seq<char>) -> Seq<char> {
    let (a, b) = choose|a: int, b: int| framed(s, a, b);
    s.subrange(a, b)
}

/// What an entry denotes: its hour and minute taken on the day of
/// `reference`, an hour of 24 or more running into the next day.
pub open spec fn parse_spec(reference: Moment, s: Seq<char>) -> Result<Moment, ParseError> {
    if !well_shaped(s) {
        Err(ParseError::MalformedInput)
    } else {
        let hour = token_hour(entry_token(s));
        let minute = token_minute(entry_token(s));
        let seconds = reference.midnight() + hour * 3600 + minute * 60;
        if hour > 29 || minute > 59 || seconds > MOMENT_LIMIT {
            Err(ParseError::InvalidRange)
        } else {
            Ok(Moment { seconds: seconds as i64 })
        }
    }
}

fn is_space_char(c: char) -> (r: bool)
    ensures
        r == is_space(c),
{
    ('\u{9}' <= c && c <= '\u{d}') || c == ' ' || c == '\u{85}' || c == '\u{a0}'
        || c == '\u{1680}' || ('\u{2000}' <= c && c <= '\u{200a}') || c == '\u{2028}'
        || c == '\u{2029}' || c == '\u{202f}' || c == '\u{205f}' || c == '\u{3000}'
}

fn is_digit_char(c: char) -> (r: bool)
    ensures
        r == is_digit(c),
{
    '0' <= c && c <= '9'
}

fn digit_of(c: char) -> (r: i64)
    requires
        is_digit(c),
    ensures
        r == digit_value(c),
        0 <= r <= 9,
{
    (c as u32 - '0' as u32) as i64
}

/// The trimmed bounds found by a scan determine every framing of `s`.
proof fn lemma_frame_unique(s: Seq<char>, a: int, b: int, a2: int, b2: int)
    requires
        0 <= a <= b <= s.len(),
        forall|i: int| 0 <= i < a ==> is_space(#[trigger] s[i]),
        a == s.len() || !is_space(s[a]),
        forall|i: int| b <= i < s.len() ==> is_space(#[trigger] s[i]),
        b == a || !is_space(s[b - 1]),
        framed(s, a2, b2),
    ensures
        a2 == a,
        b2 == b,
{
    let t = s.subrange(a2, b2);
    assert(is_digit(t[0]));
    assert(is_digit(t[t.len() - 1]));
    assert(s[a2] == t[0]);
    assert(s[b2 - 1] == t[t.len() - 1]);
    if a2 < a {
        assert(is_space(s[a2]));
    }
    if a2 > a {
        assert(s.subrange(0, a2)[a] == s[a]);
    }
    if b2 > b {
        assert(is_space(s[b2 - 1]));
    }
    if b2 < b {
        assert(s.subrange(b2, s.len() as int)[b - 1 - b2] == s[b - 1]);
    }
}

/// Bounds of `s` with its leading and trailing white space left out.
fn trim_bounds(s: &str) -> (r: (usize, usize))
    ensures
        r.0 <= r.1 <= s@.len(),
        forall|i: int| 0 <= i < r.0 ==> is_space(#[trigger] s@[i]),
        r.0 == s@.len() || !is_space(s@[r.0 as int]),
        forall|i: int| r.1 <= i < s@.len() ==> is_space(#[trigger] s@[i]),
        r.1 == r.0 || !is_space(s@[r.1 - 1]),
{
    let n = s.unicode_len();
    let mut a: usize = 0;
    while a < n && is_space_char(s.get_char(a))
        invariant
            n == s@.len(),
            a <= n,
            forall|i: int| 0 <= i < a ==> is_space(#[trigger] s@[i]),
        decreases n - a,
    {
        a = a + 1;
    }
    let mut b: usize = n;
    while b > a && is_space_char(s.get_char(b - 1))
        invariant
            n == s@.len(),
            a <= b <= n,
            forall|i: int| b <= i < n ==> is_space(#[trigger] s@[i]),
        decreases b,
    {
        b = b - 1;
    }
    (a, b)
}

/// Hour and minute of `s[a..b]` when it is a clock token.
fn read_token(s: &str, a: usize, b: usize) -> (r: Option<(i64, i64)>)
    requires
        a <= b <= s@.len(),
    ensures
        r is Some <==> clock_token(s@.subrange(a as int, b as int)),
        r is Some ==> r->Some_0.0 == token_hour(s@.subrange(a as int, b as int))
            && r->Some_0.1 == token_minute(s@.subrange(a as int, b as int)),
{
    let ghost t = s@.subrange(a as int, b as int);
    let len = b - a;
    if len == 4 {
        let c0 = s.get_char(a);
        let c1 = s.get_char(a + 1);
        let c2 = s.get_char(a + 2);
        let c3 = s.get_char(a + 3);
        assert(t[0] == c0 && t[1] == c1 && t[2] == c2 && t[3] == c3);
        if is_digit_char(c0) && c1 == ':' && is_digit_char(c2) && is_digit_char(c3) {
            Some((digit_of(c0), 10 * digit_of(c2) + digit_of(c3)))
        } else {
            None
        }
    } else if len == 5 {
        let c0 = s.get_char(a);
        let c1 = s.get_char(a + 1);
        let c2 = s.get_char(a + 2);
        let c3 = s.get_char(a + 3);
        let c4 = s.get_char(a + 4);
        assert(t[0] == c0 && t[1] == c1 && t[2] == c2 && t[3] == c3 && t[4] == c4);
        if is_digit_char(c0) && is_digit_char(c1) && c2 == ':' && is_digit_char(c3)
            && is_digit_char(c4) {
            Some((10 * digit_of(c0) + digit_of(c1), 10 * digit_of(c3) + digit_of(c4)))
        } else {
            None
        }
    } else {
        None
    }
}

/// Parses a clock entry such as "8:00", " 13:45 " or "25:30" into a moment on
/// the day of `reference`; hours from 24 to 29 fall on the following day.
pub fn parse_datetime(reference: &Moment, s: &str) -> (r: Result<Moment, ParseError>)
    requires
        reference.wf(),
    ensures
        r == parse_spec(*reference, s@),
        r is Ok ==> r->Ok_0.wf(),
{
    let (a, b) = trim_bounds(s);
    let ghost t = s@.subrange(a as int, b as int);
    proof {
        assert forall|a2: int, b2: int| framed(s@, a2, b2) implies a2 == a && b2 == b by {
            lemma_frame_unique(s@, a as int, b as int, a2, b2);
        }
    }
    let fields = read_token(s, a, b);
    match fields {
        None => {
            assert(!well_shaped(s@));
            Err(ParseError::MalformedInput)
        },
        Some((hour, minute)) => {
            proof {
                assert(blank(s@.subrange(0, a as int)));
                assert(blank(s@.subrange(b as int, s@.len() as int)));
                assert(framed(s@, a as int, b as int));
                assert(entry_token(s@) == t);
            }
            if hour > 29 || minute > 59 {
                return Err(ParseError::InvalidRange);
            }
            let midnight = reference.seconds - reference.time_of_day() as i64;
            let seconds = midnight + hour * 3600 + minute * 60;
            if seconds > MOMENT_LIMIT {
                return Err(ParseError::InvalidRange);
            }
            Ok(Moment { seconds })
        },
    }
}

/// An entry as a person writes it: the hour, two digits when `padded` or
/// when it is 10 or more, then a colon and the minute in two digits.
pub open spec fn entry_text(hour: nat, minute: nat, padded: bool) -> Seq<char> {
    let h = if padded || hour >= 10 { two_digits(hour as int) } else { decimal(hour) };
    h + seq![':'] + two_digits(minute as int)
}

proof fn lemma_digit(d: int)
    requires
        0 <= d <= 9,
    ensures
        is_digit(digit_char(d)),
        digit_value(digit_char(d)) == d,
        !is_space(digit_char(d)),
{
}

/// Every entry "H:MM" or "HH:MM" with an hour up to 29 and a minute up to 59
/// parses, and reads back as the same minute and the hour modulo 24, on the
/// day of `reference` below hour 24 and on the day after from hour 24 on.
pub proof fn lemma_entry_round_trip(reference: Moment, hour: nat, minute: nat, padded: bool)
    requires
        reference.wf(),
        hour <= 29,
        minute <= 59,
        reference.midnight() + hour * 3600 + minute * 60 <= MOMENT_LIMIT,
    ensures
        parse_spec(reference, entry_text(hour, minute, padded)) is Ok,
        parse_spec(reference, entry_text(hour, minute, padded))->Ok_0.second_of_day() == (hour
            % 24) * 3600 + minute * 60,
        parse_spec(reference, entry_text(hour, minute, padded))->Ok_0.midnight()
            == reference.midnight() + (hour / 24) * 86400,
{
    let s = entry_text(hour, minute, padded);
    lemma_digit(hour as int / 10);
    lemma_digit(hour as int % 10);
    lemma_digit(minute as int / 10);
    lemma_digit(minute as int % 10);
    if !(padded || hour >= 10) {
        assert(decimal(hour) == seq![digit_char(hour as int)]);
    }
    let n = s.len() as int;
    assert(s.subrange(0, n) =~= s);
    assert(blank(s.subrange(0, 0)));
    assert(blank(s.subrange(n, n)));
    assert(clock_token(s));
    assert(framed(s, 0, n));
    assert(token_hour(s) == hour);
    assert(token_minute(s) == minute);
    assert forall|a2: int, b2: int| framed(s, a2, b2) implies a2 == 0 && b2 == n by {
        lemma_frame_unique(s, 0, n, a2, b2);
    }
    assert(entry_token(s) == s);
    let r = reference.seconds as int;
    lemma_fundamental_div_mod(r, 86400);
    let q = r / 86400;
    let seconds = reference.midnight() + hour * 3600 + minute * 60;
    let rest = ((hour % 24) * 3600 + minute * 60) as int;
    assert(seconds == 86400 * (q + hour / 24) + rest);
    lemma_mod_multiples_vanish(q + hour / 24, rest, 86400);
    assert(rest % 86400 == rest);
}

/// Entries without the shape of a clock time are refused as malformed, and
/// well-shaped ones whose minute is above 59 as out of range. A text with no
/// colon, or with no digit, never has the shape.
pub proof fn lemma_refused_entries(reference: Moment, s: Seq<char>)
    ensures
        !well_shaped(s) ==> parse_spec(reference, s) == Err::<Moment, ParseError>(
            ParseError::MalformedInput,
        ),
        well_shaped(s) && token_minute(entry_token(s)) > 59 ==> parse_spec(reference, s) == Err::<
            Moment,
            ParseError,
        >(ParseError::InvalidRange),
        (forall|i: int| 0 <= i < s.len() ==> s[i] != ':') ==> !well_shaped(s),
        (forall|i: int| 0 <= i < s.len() ==> !is_digit(#[trigger] s[i])) ==> !well_shaped(s),
{
    if well_shaped(s) {
        let (a, b) = choose|a: int, b: int| framed(s, a, b);
        let t = s.subrange(a, b);
        assert(t[0] == s[a]);
        if t.len() == 4 {
            assert(t[1] == s[a + 1]);
        } else {
            assert(t[2] == s[a + 2]);
        }
    }
}

} // verus!
