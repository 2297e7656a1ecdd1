//! Integers as texts: digits in a base, and the integer that a text denotes.

use vstd::prelude::*;

verus! {

/// The character of a digit below 36: `0` to `9`, then `a` to `z`.
pub open spec fn digit_symbol(d: nat) -> char {
    if d < 10 {
        ((48 + d) as u8) as char
    } else {
        ((87 + d) as u8) as char
    }
}

/// The digits of a natural number in a base, most significant first.
pub open spec fn in_base(n: nat, base: nat) -> Seq<char>
    decreases n,
{
    if base < 2 || n < base {
        seq![digit_symbol(n)]
    } else {
        proof {
            assert(n / base < n) by (nonlinear_arith)
                requires
                    n >= base,
                    base >= 2,
            ;
        }
        in_base(n / base, base).push(digit_symbol(n % base))
    }
}

/// The decimal text of an integer, with `-` before a negative one.
pub open spec fn signed_decimal(n: int) -> Seq<char> {
    if n < 0 {
        seq!['-'] + in_base((-n) as nat, 10)
    } else {
        in_base(n as nat, 10)
    }
}

/// How `radix_fmt` writes an integer of 128 bits: in base ten with its sign,
/// in any other base as the digits of its two's complement.
pub open spec fn radix_spec(n: i128, base: u8) -> Seq<char> {
    if base == 10 {
        signed_decimal(n as int)
    } else if n >= 0 {
        in_base(n as nat, base as nat)
    } else {
        in_base((n + 0x1_0000_0000_0000_0000_0000_0000_0000_0000) as nat, base as nat)
    }
}

/// Writes an integer in a base, by `radix_fmt::radix`, which takes a base
/// from 2 to 36 and writes negative integers other than in base ten as
/// their two's complement.
#[verifier::external_body]
pub(crate) fn radix_text(n: i128, base: u8) -> (r: String)
    requires
        2 <= base <= 36,
    ensures
        r@ == radix_spec(n, base),
{
    radix_fmt::radix(n, base).to_string()
}

/// The value of a character as a digit: `0` to `9`, and the letters in
/// either case from ten on.
pub open spec fn digit_value(c: char) -> Option<nat> {
    if '0' <= c && c <= '9' {
        Some((c as nat - 48) as nat)
    } else if 'a' <= c && c <= 'z' {
        Some((c as nat - 87) as nat)
    } else if 'A' <= c && c <= 'Z' {
        Some((c as nat - 55) as nat)
    } else {
        None
    }
}

/// The natural number that the digits denote in a base; none if a character
/// is no digit of that base.
pub open spec fn magnitude(t: Seq<char>, radix: nat) -> Option<nat>
    decreases t.len(),
{
    if t.len() == 0 {
        Some(0)
    } else {
        match (magnitude(t.drop_last(), radix), digit_value(t.last())) {
            (Some(m), Some(d)) => if d < radix {
                Some(m * radix + d)
            } else {
                None
            },
            _ => None,
        }
    }
}

/// The integer of 128 bits that a text denotes in a base: an optional sign
/// and at least one digit. None if the text is no such thing or the integer
/// does not fit.
pub open spec fn int_of_text(t: Seq<char>, radix: nat) -> Option<int> {
    let negative = t.len() > 0 && t[0] == '-';
    let body = if t.len() > 0 && (t[0] == '-' || t[0] == '+') {
        t.skip(1)
    } else {
        t
    };
    if body.len() == 0 {
        None
    } else {
        match magnitude(body, radix) {
            Some(m) => {
                let v = if negative {
                    -(m as int)
                } else {
                    m as int
                };
                if i128::MIN <= v <= i128::MAX {
                    Some(v)
                } else {
                    None
                }
            },
            None => None,
        }
    }
}

/// The digits of a longer text denote no less than those of its start.
pub proof fn lemma_magnitude_grows(t: Seq<char>, radix: nat, i: int)
    requires
        0 <= i <= t.len(),
        magnitude(t, radix) is Some,
    ensures
        magnitude(t.take(i), radix) is Some,
        magnitude(t.take(i), radix)->0 <= magnitude(t, radix)->0,
    decreases t.len() - i,
{
    if i == t.len() {
        assert(t.take(i) =~= t);
    } else {
        assert(t.drop_last().take(i) =~= t.take(i));
        lemma_magnitude_grows(t.drop_last(), radix, i);
        let m = magnitude(t.drop_last(), radix)->0;
        assert(m * radix >= m) by (nonlinear_arith)
            requires
                radix >= 1,
        ;
    }
}

fn value_of_digit(c: char) -> (r: Option<u8>)
    ensures
        match r {
            Some(d) => digit_value(c) == Some(d as nat) && d < 36,
            None => digit_value(c) is None,
        },
{
    if '0' <= c && c <= '9' {
        Some((c as u32 - 48) as u8)
    } else if 'a' <= c && c <= 'z' {
        Some((c as u32 - 87) as u8)
    } else if 'A' <= c && c <= 'Z' {
        Some((c as u32 - 55) as u8)
    } else {
        None
    }
}

/// The integer that a text denotes in a base from 2 to 36.
pub fn parse_int(t: &Vec<char>, radix: u8) -> (r: Option<i128>)
    requires
        2 <= radix <= 36,
    ensures
        match r {
            Some(v) => int_of_text(t@, radix as nat) == Some(v as int),
            None => int_of_text(t@, radix as nat) is None,
        },
{
    let negative = t.len() > 0 && t[0] == '-';
    let start: usize = if t.len() > 0 && (t[0] == '-' || t[0] == '+') {
        1
    } else {
        0
    };
    if start == t.len() {
        assert(t@.skip(start as int).len() == 0);
        return None;
    }
    let ghost body = t@.skip(start as int);
    assert(t@.skip(0) =~= t@);
    let limit: u128 = 0x8000_0000_0000_0000_0000_0000_0000_0000;
    let mut m: u128 = 0;
    let mut i: usize = start;
    assert(body.take(0) =~= Seq::<char>::empty());
    while i < t.len()
        invariant
            start <= i <= t.len(),
            body == t@.skip(start as int),
            body == (if t@.len() > 0 && (t@[0] == '-' || t@[0] == '+') {
                t@.skip(1)
            } else {
                t@
            }),
            body.len() > 0,
            magnitude(body.take(i - start), radix as nat) == Some(m as nat),
            m <= limit,
            limit == 0x8000_0000_0000_0000_0000_0000_0000_0000,
            2 <= radix <= 36,
        decreases t.len() - i,
    {
        let ghost prefix = body.take(i - start + 1);
        assert(prefix.drop_last() =~= body.take(i - start));
        assert(prefix.last() == t@[i as int]);
        let digit = match value_of_digit(t[i]) {
            Some(d) => if d < radix {
                Some(d)
            } else {
                None
            },
            None => None,
        };
        match digit {
            Some(d) => {
                let room: u128 = (limit - d as u128) / (radix as u128);
                if m > room {
                    proof {
                        assert(m * radix + d > limit) by (nonlinear_arith)
                            requires
                                m > room,
                                room == (limit - d) / (radix as int),
                                radix >= 2,
                                d <= limit,
                        ;
                        assert(magnitude(prefix, radix as nat) == Some((m * radix + d) as nat));
                        if magnitude(body, radix as nat) is Some {
                            lemma_magnitude_grows(body, radix as nat, i - start + 1);
                        }
                    }
                    return None;
                }
                assert(m * radix + d <= limit) by (nonlinear_arith)
                    requires
                        m <= room,
                        room == (limit - d) / (radix as int),
                        radix >= 2,
                        d <= limit,
                ;
                m = m * (radix as u128) + d as u128;
            },
            None => {
                proof {
                    assert(magnitude(prefix, radix as nat) is None);
                    if magnitude(body, radix as nat) is Some {
                        lemma_magnitude_grows(body, radix as nat, i - start + 1);
                    }
                }
                return None;
            },
        }
        i += 1;
    }
    assert(body.take(t.len() - start) =~= body);
    if negative {
        if m == limit {
            Some(i128::MIN)
        } else {
            Some(-(m as i128))
        }
    } else if m == limit {
        None
    } else {
        Some(m as i128)
    }
}

/// The text with zeros in front up to the given width.
pub open spec fn pad_left(t: Seq<char>, width: nat) -> Seq<char> {
    Seq::new(
        if width > t.len() {
            (width - t.len()) as nat
        } else {
            0
        },
        |i: int| '0',
    ) + t
}

/// Puts zeros in front of a text up to the given width.
pub fn pad(t: &Vec<char>, width: usize) -> (r: Vec<char>)
    ensures
        r@ == pad_left(t@, width as nat),
{
    let mut out: Vec<char> = Vec::new();
    let n: usize = if width > t.len() {
        width - t.len()
    } else {
        0
    };
    let mut i: usize = 0;
    while i < n
        invariant
            i <= n,
            out@ =~= Seq::new(i as nat, |k: int| '0'),
        decreases n - i,
    {
        out.push('0');
        i += 1;
    }
    let ghost zeros = out@;
    let mut k: usize = 0;
    while k < t.len()
        invariant
            k <= t.len(),
            out@ =~= zeros + t@.take(k as int),
        decreases t.len() - k,
    {
        out.push(t[k]);
        k += 1;
    }
    assert(t@.take(t.len() as int) =~= t@);
    out
}

} // verus!
