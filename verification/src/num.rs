//! Numerals: the numeric syntax of the language, the same numbers in the
//! notation of the numeric backend, and the numerals of machine integers.

use crate::text::{chars_of, string_of};
use crate::tokens::Num;
use vstd::prelude::*;

verus! {

/// A character that may occur in a number of the language: a digit, the sign
/// marker `_`, or the exponent separator `e`.
pub open spec fn arn_char(c: char) -> bool {
    c == '_' || c == 'e' || ('0' <= c && c <= '9')
}

/// The numeric syntax of the language: digits with at most one `e`, where a
/// `_` may stand only in front or right behind the `e`.
pub open spec fn is_arn_num_spec(s: Seq<char>) -> bool {
    &&& s.len() > 0
    &&& forall|i: int| 0 <= i < s.len() ==> arn_char(#[trigger] s[i])
    &&& forall|i: int, j: int|
        0 <= i < j < s.len() && #[trigger] s[i] == 'e' ==> #[trigger] s[j] != 'e'
    &&& forall|i: int| 0 < i < s.len() && #[trigger] s[i] == '_' ==> s[i - 1] == 'e'
}

/// Whether the characters form a number of the language.
pub fn is_arn_chars(s: &Vec<char>) -> (r: bool)
    ensures
        r == is_arn_num_spec(s@),
{
    if s.len() == 0 {
        return false;
    }
    let mut seen_e: bool = false;
    let mut i: usize = 0;
    while i < s.len()
        invariant
            i <= s.len(),
            forall|k: int| 0 <= k < i ==> arn_char(#[trigger] s@[k]),
            forall|k: int, j: int| 0 <= k < j < i && #[trigger] s@[k] == 'e' ==> #[trigger] s@[j] != 'e',
            forall|k: int| 0 < k < i && #[trigger] s@[k] == '_' ==> s@[k - 1] == 'e',
            seen_e <==> exists|k: int| 0 <= k < i && #[trigger] s@[k] == 'e',
        decreases s.len() - i,
    {
        let c = s[i];
        if c == '_' {
            if i > 0 && s[i - 1] != 'e' {
                return false;
            }
        } else if c == 'e' {
            if seen_e {
                proof {
                    let k = choose|k: int| 0 <= k < i && #[trigger] s@[k] == 'e';
                    assert(s@[k] == 'e' && s@[i as int] == 'e');
                }
                return false;
            }
            seen_e = true;
        } else if '0' <= c && c <= '9' {
        } else {
            assert(!arn_char(s@[i as int]));
            return false;
        }
        i += 1;
    }
    true
}

/// Whether the string is a number of the language.
pub fn is_arn_num(string: &str) -> (r: bool)
    ensures
        r == is_arn_num_spec(string@),
{
    let v = chars_of(string);
    is_arn_chars(&v)
}

/// The sign marker `_` written as `-`.
pub open spec fn sign_char(c: char) -> char {
    if c == '_' {
        '-'
    } else {
        c
    }
}

/// A number of the language in the backend's notation: a leading `e` gets the
/// mantissa 1, a leading `_e` the mantissa -1, and every `_` becomes `-`.
pub open spec fn arn_numeral(s: Seq<char>) -> Seq<char> {
    if s.len() >= 1 && s[0] == 'e' {
        seq!['1'] + s.map_values(|c: char| sign_char(c))
    } else if s.len() >= 2 && s[0] == '_' && s[1] == 'e' {
        seq!['-', '1'] + s.skip(1).map_values(|c: char| sign_char(c))
    } else {
        s.map_values(|c: char| sign_char(c))
    }
}

/// Writes the characters of a number of the language in the notation of
/// the backend.
pub fn numeral_of_chars(s: &Vec<char>) -> (n: Num)
    ensures
        n.text@ == arn_numeral(s@),
{
    let mut out: Vec<char> = Vec::new();
    let mut start: usize = 0;
    if s.len() >= 1 && s[0] == 'e' {
        out.push('1');
    } else if s.len() >= 2 && s[0] == '_' && s[1] == 'e' {
        out.push('-');
        out.push('1');
        start = 1;
    }
    let ghost head = out@;
    let mut i: usize = start;
    while i < s.len()
        invariant
            start <= i <= s.len(),
            out@ == head + s@.subrange(start as int, i as int).map_values(|c: char| sign_char(c)),
        decreases s.len() - i,
    {
        let c = s[i];
        out.push(if c == '_' { '-' } else { c });
        i += 1;
        assert(out@ =~= head + s@.subrange(start as int, i as int).map_values(
            |c: char| sign_char(c),
        ));
    }
    assert(s@.subrange(start as int, s.len() as int) =~= s@.skip(start as int));
    assert(s@.skip(0) =~= s@);
    Num { text: string_of(&out) }
}

/// Writes a number of the language as a numeral. Whether the numeral
/// is well formed is for the numeric backend to say when it is evaluated.
pub fn parse_arn_num(string: &str) -> (n: Num)
    ensures
        n.text@ == arn_numeral(string@),
{
    let v = chars_of(string);
    numeral_of_chars(&v)
}

/// The decimal digits of a natural number, most significant first.
pub open spec fn decimal(n: nat) -> Seq<char>
    decreases n,
{
    if n < 10 {
        seq![digit_char(n)]
    } else {
        decimal(n / 10).push(digit_char(n % 10))
    }
}

/// The character of a digit below ten.
pub open spec fn digit_char(d: nat) -> char {
    if d == 0 {
        '0'
    } else if d == 1 {
        '1'
    } else if d == 2 {
        '2'
    } else if d == 3 {
        '3'
    } else if d == 4 {
        '4'
    } else if d == 5 {
        '5'
    } else if d == 6 {
        '6'
    } else if d == 7 {
        '7'
    } else if d == 8 {
        '8'
    } else {
        '9'
    }
}

fn digit_of(d: u64) -> (c: char)
    requires
        d < 10,
    ensures
        c == digit_char(d as nat),
{
    if d == 0 {
        '0'
    } else if d == 1 {
        '1'
    } else if d == 2 {
        '2'
    } else if d == 3 {
        '3'
    } else if d == 4 {
        '4'
    } else if d == 5 {
        '5'
    } else if d == 6 {
        '6'
    } else if d == 7 {
        '7'
    } else if d == 8 {
        '8'
    } else {
        '9'
    }
}

/// The decimal digits of `n` as characters.
pub fn decimal_chars(n: u64) -> (v: Vec<char>)
    ensures
        v@ == decimal(n as nat),
    decreases n,
{
    if n < 10 {
        let mut v: Vec<char> = Vec::new();
        v.push(digit_of(n));
        v
    } else {
        let mut v = decimal_chars(n / 10);
        v.push(digit_of(n % 10));
        v
    }
}

/// The numeral of a machine integer.
pub fn num_of_u64(n: u64) -> (r: Num)
    ensures
        r.text@ == decimal(n as nat),
{
    let v = decimal_chars(n);
    Num { text: string_of(&v) }
}

/// The numeral of a length or an index.
pub fn num_of_usize(n: usize) -> (r: Num)
    ensures
        r.text@ == decimal(n as nat),
{
    num_of_u64(n as u64)
}

} // verus!
