//! The run's settings: the identifying user-agent string and the parser of a
//! bounded integer option.
use vstd::prelude::*;

verus! {

/// Unicode `White_Space` characters, as `char::is_whitespace` tests them.
pub open spec fn is_white(c: char) -> bool {
    ('\u{9}' <= c && c <= '\u{d}') || c == ' ' || c == '\u{85}' || c == '\u{a0}' || c
        == '\u{1680}' || ('\u{2000}' <= c && c <= '\u{200a}') || c == '\u{2028}' || c
        == '\u{2029}' || c == '\u{202f}' || c == '\u{205f}' || c == '\u{3000}'
}

/// A text that holds only white space, or nothing: it trims to the empty text.
pub open spec fn is_blank(s: Seq<char>) -> bool {
    forall|i: int| 0 <= i < s.len() ==> is_white(#[trigger] s[i])
}

/// The user-agent string: the tool's own identification, followed by the
/// operator's note where one was given that is not blank.
pub open spec fn user_agent(base: Seq<char>, note: Option<String>) -> Seq<char> {
    match note {
        Some(n) => if is_blank(n@) {
            base
        } else {
            base + "; "@ + n@
        },
        None => base,
    }
}

fn is_white_char(c: char) -> (r: bool)
    ensures
        r == is_white(c),
{
    ('\u{9}' <= c && c <= '\u{d}') || c == ' ' || c == '\u{85}' || c == '\u{a0}' || c
        == '\u{1680}' || ('\u{2000}' <= c && c <= '\u{200a}') || c == '\u{2028}' || c
        == '\u{2029}' || c == '\u{202f}' || c == '\u{205f}' || c == '\u{3000}'
}

fn blank(s: &str) -> (r: bool)
    ensures
        r == is_blank(s@),
{
    let ghost cs = s@;
    for c in it: s.chars()
        invariant
            it.seq() == cs,
            cs == s@,
            it.index() <= cs.len(),
            forall|i: int| 0 <= i < it.index() ==> is_white(#[trigger] cs[i]),
    {
        if !is_white_char(c) {
            assert(cs[it.index() as int] == c);
            return false;
        }
    }
    true
}

/// Builds the user-agent string from the tool's identification `base` and
/// the operator's optional note; a blank note is left out.
pub fn build_user_agent(base: &str, note: Option<String>) -> (r: String)
    ensures
        r@ == user_agent(base@, note),
{
    let mut ua = String::from_str(base);
    match note {
        Some(n) => {
            if !blank(n.as_str()) {
                ua.append("; ");
                ua.append(n.as_str());
            }
        },
        None => {},
    }
    ua
}

/// An ASCII decimal digit.
pub open spec fn is_digit(c: char) -> bool {
    '0' <= c && c <= '9'
}

pub open spec fn digit_value(c: char) -> nat {
    (c as u32 - '0' as u32) as nat
}

/// The value of a run of decimal digits, most significant first.
pub open spec fn digits_value(s: Seq<char>) -> nat
    decreases s.len(),
{
    if s.len() == 0 {
        0
    } else {
        digits_value(s.drop_last()) * 10 + digit_value(s.last())
    }
}

/// The digits of an unsigned number's text: without its leading `+`, if any.
pub open spec fn unsigned_digits(s: Seq<char>) -> Seq<char> {
    if s.len() > 0 && s[0] == '+' {
        s.drop_first()
    } else {
        s
    }
}

/// The `usize` that a text denotes as `str::parse` reads it: an optional `+`
/// and at least one decimal digit, with a value that fits.
pub open spec fn usize_of(s: Seq<char>) -> Option<nat> {
    let d = unsigned_digits(s);
    if d.len() > 0 && (forall|i: int| 0 <= i < d.len() ==> is_digit(#[trigger] d[i]))
        && digits_value(d) <= usize::MAX {
        Some(digits_value(d))
    } else {
        None
    }
}

/// The decimal text of a number.
pub open spec fn decimal(n: nat) -> Seq<char>
    decreases n,
{
    if n < 10 {
        seq![digit_char(n)]
    } else {
        decimal(n / 10).push(digit_char(n % 10))
    }
}

pub open spec fn digit_char(d: nat) -> char {
    if d == 0 {
        '0'
    } else if d == 1 {
        '1'
    } else if d == 2 {
        '2'
    } else if d == 3 {
        '3'
    } else if d == 4 {
        '4'
    } else if d == 5 {
        '5'
    } else if d == 6 {
        '6'
    } else if d == 7 {
        '7'
    } else if d == 8 {
        '8'
    } else {
        '9'
    }
}

/// The message for a value outside the accepted range.
pub open spec fn out_of_range_message(n: nat, min: nat, max: nat) -> Seq<char> {
    decimal(n) + " is not in "@ + decimal(min) + "..="@ + decimal(max)
}

fn digit_str(d: u64) -> (r: &'static str)
    requires
        d < 10,
    ensures
        r@ == seq![digit_char(d as nat)],
{
    proof {
        reveal_strlit("0");
        reveal_strlit("1");
        reveal_strlit("2");
        reveal_strlit("3");
        reveal_strlit("4");
        reveal_strlit("5");
        reveal_strlit("6");
        reveal_strlit("7");
        reveal_strlit("8");
        reveal_strlit("9");
    }
    if d == 0 {
        "0"
    } else if d == 1 {
        "1"
    } else if d == 2 {
        "2"
    } else if d == 3 {
        "3"
    } else if d == 4 {
        "4"
    } else if d == 5 {
        "5"
    } else if d == 6 {
        "6"
    } else if d == 7 {
        "7"
    } else if d == 8 {
        "8"
    } else {
        "9"
    }
}

/// The decimal text of `n`.
pub fn to_decimal(n: u64) -> (r: String)
    ensures
        r@ == decimal(n as nat),
    decreases n,
{
    if n < 10 {
        String::from_str(digit_str(n))
    } else {
        let mut r = to_decimal(n / 10);
        r.append(digit_str(n % 10));
        r
    }
}

proof fn lemma_digits_value_prefix(d: Seq<char>, i: int)
    requires
        0 <= i <= d.len(),
        forall|j: int| 0 <= j < d.len() ==> is_digit(#[trigger] d[j]),
    ensures
        digits_value(d.take(i)) <= digits_value(d),
    decreases d.len() - i,
{
    if i < d.len() {
        lemma_digits_value_prefix(d, i + 1);
        assert(d.take(i + 1).drop_last() =~= d.take(i));
    }
    assert(d.take(d.len() as int) =~= d);
}

/// Reads a `usize` as `str::parse` does.
fn parse_usize(s: &str) -> (r: Option<usize>)
    ensures
        r matches Some(n) ==> usize_of(s@) == Some(n as nat),
        r is None ==> usize_of(s@) is None,
{
    let mut cs: Vec<char> = Vec::new();
    for c in it: s.chars()
        invariant
            it.seq() == s@,
            it.index() <= s@.len(),
            cs@ == s@.take(it.index() as int),
    {
        assert(s@.take(it.index() + 1) =~= cs@.push(c));
        cs.push(c);
    }
    assert(s@.take(s@.len() as int) =~= s@);
    let start: usize = if cs.len() > 0 && cs[0] == '+' {
        1
    } else {
        0
    };
    let ghost d = unsigned_digits(s@);
    assert(d =~= cs@.subrange(start as int, cs@.len() as int));
    if start == cs.len() {
        return None;
    }
    let mut value: usize = 0;
    let mut i: usize = start;
    while i < cs.len()
        invariant
            start <= i <= cs@.len(),
            d == cs@.subrange(start as int, cs@.len() as int),
            d == unsigned_digits(s@),
            forall|j: int| start <= j < i ==> is_digit(#[trigger] cs@[j]),
            value == digits_value(d.take(i - start)),
        decreases cs@.len() - i,
    {
        let c = cs[i];
        if !('0' <= c && c <= '9') {
            assert(d[i - start] == cs@[i as int]);
            assert(!is_digit(d[i - start]));
            return None;
        }
        let dv: usize = (c as u32 - '0' as u32) as usize;
        assert(d.take(i - start + 1).drop_last() =~= d.take(i - start));
        assert(d.take(i - start + 1).last() == c);
        if value > (usize::MAX - dv) / 10 {
            proof {
                let v = value as int;
                let w = dv as int;
                let m = usize::MAX as int;
                assert(v * 10 + w > m) by (nonlinear_arith)
                    requires
                        v > (m - w) / 10,
                        0 <= w < 10,
                        w <= m,
                ;
                assert(digit_value(c) == dv);
                assert(digits_value(d.take(i - start + 1)) == v * 10 + w);
                if forall|j: int| 0 <= j < d.len() ==> is_digit(#[trigger] d[j]) {
                    lemma_digits_value_prefix(d, i - start + 1);
                }
            }
            return None;
        }
        value = value * 10 + dv;
        i = i + 1;
    }
    assert(d.take(d.len() as int) =~= d);
    assert forall|j: int| 0 <= j < d.len() implies is_digit(#[trigger] d[j]) by {
        assert(d[j] == cs@[start + j]);
    }
    Some(value)
}

/// Parses a `usize` option and accepts it only within `MIN..=MAX`.
pub fn ranged_usize_parser<const MIN: usize, const MAX: usize>(s: &str) -> (r: Result<usize, String>)
    ensures
        match usize_of(s@) {
            None => r matches Err(m) && m@ == "not an integer"@,
            Some(n) => if MIN <= n && n <= MAX {
                r == Ok::<usize, String>(n as usize)
            } else {
                r matches Err(m) && m@ == out_of_range_message(n, MIN as nat, MAX as nat)
            },
        },
{
    match parse_usize(s) {
        None => Err(String::from_str("not an integer")),
        Some(n) => {
            if MIN <= n && n <= MAX {
                Ok(n)
            } else {
                let mut m = to_decimal(n as u64);
                m.append(" is not in ");
                let lo = to_decimal(MIN as u64);
                m.append(lo.as_str());
                m.append("..=");
                let hi = to_decimal(MAX as u64);
                m.append(hi.as_str());
                Err(m)
            }
        },
    }
}

} // verus!
