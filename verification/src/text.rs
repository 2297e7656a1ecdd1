//! Conversions between strings and character vectors, and small helpers on
//! character sequences.

use vstd::prelude::*;
use vstd::std_specs::iter::IteratorSpec;

verus! {

/// `String::push` of the standard library appends one character.
pub assume_specification[ std::string::String::push ](s: &mut std::string::String, c: char)
    ensures
        final(s)@ == old(s)@.push(c),
;

/// Whether a character is white space.
pub open spec fn is_white(c: char) -> bool {
    let u = c as u32;
    (0x09 <= u && u <= 0x0d) || u == 0x20 || u == 0x85 || u == 0xa0 || u == 0x1680 || (0x2000
        <= u && u <= 0x200a) || u == 0x2028 || u == 0x2029 || u == 0x202f || u == 0x205f || u
        == 0x3000
}

/// The text without the white space at its end.
pub open spec fn trim_white_end(t: Seq<char>) -> Seq<char>
    decreases t.len(),
{
    if t.len() > 0 && is_white(t.last()) {
        trim_white_end(t.drop_last())
    } else {
        t
    }
}

/// The text without the white space at its start.
pub open spec fn trim_white_start(t: Seq<char>) -> Seq<char>
    decreases t.len(),
{
    if t.len() > 0 && is_white(t[0]) {
        trim_white_start(t.skip(1))
    } else {
        t
    }
}

/// The text without the white space at its ends.
#[verifier::opaque]
pub open spec fn trimmed(t: Seq<char>) -> Seq<char> {
    trim_white_start(trim_white_end(t))
}

/// A text that neither starts nor ends with white space is left as it is.
pub proof fn lemma_trimmed_same(t: Seq<char>)
    requires
        t.len() > 0 ==> !is_white(t[0]) && !is_white(t.last()),
    ensures
        trimmed(t) == t,
{
    reveal(trimmed);
}

/// The characters of a string slice, in order.
pub fn chars_of(s: &str) -> (v: Vec<char>)
    ensures
        v@ == s@,
{
    broadcast use vstd::string::group_string_axioms;

    let mut v: Vec<char> = Vec::new();
    let mut it = s.chars();
    loop
        invariant
            it.obeys_prophetic_iter_laws(),
            it.decrease() is Some,
            v@ + it.remaining() == s@,
        decreases it.decrease()->0,
    {
        match it.next() {
            Some(c) => {
                v.push(c);
                assert(v@ + it.remaining() =~= s@);
            },
            None => {
                assert(v@ =~= s@);
                return v;
            },
        }
    }
}

/// The string made of the given characters, in order.
pub fn string_of(v: &Vec<char>) -> (s: String)
    ensures
        s@ == v@,
{
    let mut s = String::new();
    let mut i: usize = 0;
    while i < v.len()
        invariant
            i <= v.len(),
            s@ == v@.take(i as int),
        decreases v.len() - i,
    {
        s.push(v[i]);
        i += 1;
        assert(s@ =~= v@.take(i as int));
    }
    assert(v@.take(v.len() as int) =~= v@);
    s
}

/// Appends the characters of `more` to `out`.
pub fn append_chars(out: &mut Vec<char>, more: &Vec<char>)
    ensures
        final(out)@ == old(out)@ + more@,
{
    let mut i: usize = 0;
    assert(out@ =~= old(out)@ + more@.take(0));
    while i < more.len()
        invariant
            i <= more.len(),
            out@ == old(out)@ + more@.take(i as int),
        decreases more.len() - i,
    {
        out.push(more[i]);
        i += 1;
        assert(out@ =~= old(out)@ + more@.take(i as int));
    }
    assert(more@.take(more.len() as int) =~= more@);
}

/// Whether a character occurs in a text.
pub fn has_char(t: &Vec<char>, c: char) -> (r: bool)
    ensures
        r == t@.contains(c),
{
    let mut i: usize = 0;
    while i < t.len()
        invariant
            i <= t.len(),
            forall|k: int| 0 <= k < i ==> t@[k] != c,
        decreases t.len() - i,
    {
        if t[i] == c {
            return true;
        }
        i += 1;
    }
    false
}

fn white(c: char) -> (r: bool)
    ensures
        r == is_white(c),
{
    let u = c as u32;
    (0x09 <= u && u <= 0x0d) || u == 0x20 || u == 0x85 || u == 0xa0 || u == 0x1680 || (0x2000
        <= u && u <= 0x200a) || u == 0x2028 || u == 0x2029 || u == 0x202f || u == 0x205f || u
        == 0x3000
}

/// The characters of a text without the white space at its ends.
pub fn trim_white(t: &Vec<char>) -> (r: Vec<char>)
    ensures
        r@ == trimmed(t@),
{
    let mut end: usize = t.len();
    assert(t@.take(end as int) =~= t@);
    while end > 0 && white(t[end - 1])
        invariant
            end <= t.len(),
            trim_white_end(t@) == trim_white_end(t@.take(end as int)),
        decreases end,
    {
        assert(t@.take(end as int).drop_last() =~= t@.take(end - 1));
        end -= 1;
    }
    let ghost mid = t@.take(end as int);
    assert(trim_white_end(t@) == mid);
    let mut start: usize = 0;
    assert(mid.skip(0) =~= mid);
    while start < end && white(t[start])
        invariant
            start <= end <= t.len(),
            mid == t@.take(end as int),
            trim_white_start(mid) == trim_white_start(mid.skip(start as int)),
        decreases end - start,
    {
        assert(mid.skip(start as int).skip(1) =~= mid.skip(start + 1));
        start += 1;
    }
    let mut out: Vec<char> = Vec::new();
    let mut i: usize = start;
    while i < end
        invariant
            start <= i <= end <= t.len(),
            out@ =~= t@.subrange(start as int, i as int),
        decreases end - i,
    {
        out.push(t[i]);
        i += 1;
    }
    assert(t@.subrange(start as int, end as int) =~= mid.skip(start as int));
    proof {
        reveal(trimmed);
    }
    out
}

/// A text without the white space at its ends.
pub fn trim_str(s: &str) -> (r: String)
    ensures
        r@ == trimmed(s@),
{
    string_of(&trim_white(&chars_of(s)))
}

} // verus!
