//! Text helpers shared by the request builder and the query accessors.

use vstd::prelude::*;
use vstd::string::*;

verus! {

/// `needle` occurs in `hay` as a contiguous run of characters.
pub open spec fn is_substring(needle: Seq<char>, hay: Seq<char>) -> bool {
    exists|i: int|
        0 <= i && i + needle.len() <= hay.len() && #[trigger] hay.subrange(
            i,
            i + needle.len(),
        ) == needle
}

/// The character that writes the digit `d` in base sixteen or below.
pub open spec fn digit_char(d: nat) -> char {
    if d == 0 {
        '0'
    } else if d == 1 {
        '1'
    } else if d == 2 {
        '2'
    } else if d == 3 {
        '3'
    } else if d == 4 {
        '4'
    } else if d == 5 {
        '5'
    } else if d == 6 {
        '6'
    } else if d == 7 {
        '7'
    } else if d == 8 {
        '8'
    } else if d == 9 {
        '9'
    } else if d == 10 {
        'a'
    } else if d == 11 {
        'b'
    } else if d == 12 {
        'c'
    } else if d == 13 {
        'd'
    } else if d == 14 {
        'e'
    } else {
        'f'
    }
}

/// The decimal rendering of `n`: its digits, most significant first, without
/// leading zeros; zero is the single digit `0`.
pub open spec fn decimal_of(n: nat) -> Seq<char>
    decreases n,
{
    if n < 10 {
        seq![digit_char(n)]
    } else {
        decimal_of(n / 10).push(digit_char(n % 10))
    }
}

/// The lower-case hexadecimal rendering of `n`, without leading zeros.
pub open spec fn hex_of(n: nat) -> Seq<char>
    decreases n,
{
    if n < 16 {
        seq![digit_char(n)]
    } else {
        hex_of(n / 16).push(digit_char(n % 16))
    }
}

/// `s` without the slashes at its end.
pub open spec fn without_trailing_slashes(s: Seq<char>) -> Seq<char>
    decreases s.len(),
{
    if s.len() > 0 && s.last() == '/' {
        without_trailing_slashes(s.drop_last())
    } else {
        s
    }
}

/// The value of one decimal digit character, if it is one.
pub open spec fn digit_value(c: char) -> Option<nat> {
    if c == '0' {
        Some(0)
    } else if c == '1' {
        Some(1)
    } else if c == '2' {
        Some(2)
    } else if c == '3' {
        Some(3)
    } else if c == '4' {
        Some(4)
    } else if c == '5' {
        Some(5)
    } else if c == '6' {
        Some(6)
    } else if c == '7' {
        Some(7)
    } else if c == '8' {
        Some(8)
    } else if c == '9' {
        Some(9)
    } else {
        None
    }
}

/// The number that a run of decimal digits writes; `None` where the run is
/// empty or holds anything but digits.
pub open spec fn digits_value(s: Seq<char>) -> Option<nat>
    decreases s.len(),
{
    if s.len() == 0 {
        None
    } else {
        match digit_value(s.last()) {
            None => None,
            Some(d) => if s.len() == 1 {
                Some(d)
            } else {
                match digits_value(s.drop_last()) {
                    None => None,
                    Some(v) => Some(v * 10 + d),
                }
            },
        }
    }
}

/// What an unsigned 64-bit number parses to: an optional `+`, then at least
/// one decimal digit and nothing else, the value no larger than `u64::MAX`.
pub open spec fn parsed_u64(s: Seq<char>) -> Option<u64> {
    let digits = if s.len() > 0 && s[0] == '+' {
        s.drop_first()
    } else {
        s
    };
    match digits_value(digits) {
        Some(v) => if v <= u64::MAX {
            Some(v as u64)
        } else {
            None
        },
        None => None,
    }
}

/// The lower-case form of a text, as the standard library's Unicode tables
/// define it.
pub uninterp spec fn lowercase_of(s: Seq<char>) -> Seq<char>;

/// `str::to_lowercase`: the result is the lower-case form of the argument,
/// a function of the argument's characters alone. Nothing more is claimed
/// of it.
#[verifier::external_body]
pub(crate) fn lowercase(s: &str) -> (r: String)
    ensures
        r@ == lowercase_of(s@),
{
    s.to_lowercase()
}

/// `str::contains` with a string pattern: true exactly when the pattern
/// occurs in the text as a contiguous run of characters.
#[verifier::external_body]
pub(crate) fn contains_text(hay: &str, needle: &str) -> (r: bool)
    ensures
        r == is_substring(needle@, hay@),
{
    hay.contains(needle)
}

/// The text of one digit.
fn digit_text(d: u64) -> (r: &'static str)
    requires
        d < 16,
    ensures
        r@ == seq![digit_char(d as nat)],
{
    proof {
        reveal_strlit("0");
        reveal_strlit("1");
        reveal_strlit("2");
        reveal_strlit("3");
        reveal_strlit("4");
        reveal_strlit("5");
        reveal_strlit("6");
        reveal_strlit("7");
        reveal_strlit("8");
        reveal_strlit("9");
        reveal_strlit("a");
        reveal_strlit("b");
        reveal_strlit("c");
        reveal_strlit("d");
        reveal_strlit("e");
        reveal_strlit("f");
    }
    let r = if d == 0 {
        "0"
    } else if d == 1 {
        "1"
    } else if d == 2 {
        "2"
    } else if d == 3 {
        "3"
    } else if d == 4 {
        "4"
    } else if d == 5 {
        "5"
    } else if d == 6 {
        "6"
    } else if d == 7 {
        "7"
    } else if d == 8 {
        "8"
    } else if d == 9 {
        "9"
    } else if d == 10 {
        "a"
    } else if d == 11 {
        "b"
    } else if d == 12 {
        "c"
    } else if d == 13 {
        "d"
    } else if d == 14 {
        "e"
    } else {
        "f"
    };
    assert(r@ =~= seq![digit_char(d as nat)]);
    r
}

/// Writes a number in decimal.
pub fn decimal(n: u64) -> (r: String)
    ensures
        r@ == decimal_of(n as nat),
{
    let mut rest: u64 = n / 10;
    let mut out = String::from_str(digit_text(n % 10));
    assert(decimal_of(n as nat) =~= (if rest > 0 {
        decimal_of(rest as nat)
    } else {
        Seq::empty()
    }) + out@);
    while rest > 0
        invariant
            decimal_of(n as nat) == (if rest > 0 {
                decimal_of(rest as nat)
            } else {
                Seq::empty()
            }) + out@,
        decreases rest,
    {
        let ghost tail = out@;
        let ghost before = rest;
        out = join(digit_text(rest % 10), out.as_str());
        rest = rest / 10;
        assert(decimal_of(before as nat) + tail =~= (if rest > 0 {
            decimal_of(rest as nat)
        } else {
            Seq::empty()
        }) + out@);
    }
    assert(Seq::<char>::empty() + out@ =~= out@);
    out
}

/// Writes a number in lower-case hexadecimal.
pub fn hex(n: u64) -> (r: String)
    ensures
        r@ == hex_of(n as nat),
{
    let mut rest: u64 = n / 16;
    let mut out = String::from_str(digit_text(n % 16));
    assert(hex_of(n as nat) =~= (if rest > 0 {
        hex_of(rest as nat)
    } else {
        Seq::empty()
    }) + out@);
    while rest > 0
        invariant
            hex_of(n as nat) == (if rest > 0 {
                hex_of(rest as nat)
            } else {
                Seq::empty()
            }) + out@,
        decreases rest,
    {
        let ghost tail = out@;
        let ghost before = rest;
        out = join(digit_text(rest % 16), out.as_str());
        rest = rest / 16;
        assert(hex_of(before as nat) + tail =~= (if rest > 0 {
            hex_of(rest as nat)
        } else {
            Seq::empty()
        }) + out@);
    }
    assert(Seq::<char>::empty() + out@ =~= out@);
    out
}

/// `str::parse::<u64>`: succeeds exactly on an optional `+` followed by
/// decimal digits whose value fits, and then gives that value.
#[verifier::external_body]
pub(crate) fn parse_u64(s: &str) -> (r: Option<u64>)
    ensures
        r == parsed_u64(s@),
{
    s.parse::<u64>().ok()
}

/// Joins two texts.
pub fn join(a: &str, b: &str) -> (r: String)
    ensures
        r@ == a@ + b@,
{
    let mut out = String::from_str(a);
    out.append(b);
    out
}

/// Removes every slash from the end of a text.
pub fn trim_trailing_slashes(s: &str) -> (r: String)
    ensures
        r@ == without_trailing_slashes(s@),
{
    let mut n: usize = s.unicode_len();
    assert(s@.subrange(0, n as int) =~= s@);
    while n > 0 && s.get_char(n - 1) == '/'
        invariant
            n <= s@.len(),
            without_trailing_slashes(s@) == without_trailing_slashes(s@.subrange(0, n as int)),
        decreases n,
    {
        proof {
            let cur = s@.subrange(0, n as int);
            assert(cur.last() == '/');
            assert(cur.drop_last() =~= s@.subrange(0, n as int - 1));
        }
        n = n - 1;
    }
    proof {
        let cur = s@.subrange(0, n as int);
        assert(!(cur.len() > 0 && cur.last() == '/'));
    }
    String::from_str(s.substring_char(0, n))
}

} // verus!
