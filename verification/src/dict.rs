//! The word dictionary of compressed string literals: two characters of a
//! fixed table address one word.

use crate::text::{chars_of, string_of, trim_str, trim_white, trimmed};
use crate::machine::words_model;
use vstd::prelude::*;

verus! {

/// The place of a character in the table of the characters that address
/// words, if it is one of them.
pub open spec fn code_of(c: char) -> Option<usize> {
    match c {
        'a' => Some(0),
        'b' => Some(1),
        'c' => Some(2),
        'd' => Some(3),
        'e' => Some(4),
        'f' => Some(5),
        'g' => Some(6),
        'h' => Some(7),
        'i' => Some(8),
        'j' => Some(9),
        'k' => Some(10),
        'l' => Some(11),
        'm' => Some(12),
        'n' => Some(13),
        'o' => Some(14),
        'p' => Some(15),
        'q' => Some(16),
        'r' => Some(17),
        's' => Some(18),
        't' => Some(19),
        'u' => Some(20),
        'v' => Some(21),
        'w' => Some(22),
        'x' => Some(23),
        'y' => Some(24),
        'z' => Some(25),
        'A' => Some(26),
        'B' => Some(27),
        'C' => Some(28),
        'D' => Some(29),
        'E' => Some(30),
        'F' => Some(31),
        'G' => Some(32),
        'H' => Some(33),
        'I' => Some(34),
        'J' => Some(35),
        'K' => Some(36),
        'L' => Some(37),
        'M' => Some(38),
        'N' => Some(39),
        'O' => Some(40),
        'P' => Some(41),
        'Q' => Some(42),
        'R' => Some(43),
        'S' => Some(44),
        'T' => Some(45),
        'U' => Some(46),
        'V' => Some(47),
        'W' => Some(48),
        'X' => Some(49),
        'Y' => Some(50),
        'Z' => Some(51),
        '`' => Some(52),
        '1' => Some(53),
        '2' => Some(54),
        '3' => Some(55),
        '4' => Some(56),
        '5' => Some(57),
        '6' => Some(58),
        '7' => Some(59),
        '8' => Some(60),
        '9' => Some(61),
        '0' => Some(62),
        '-' => Some(63),
        '=' => Some(64),
        '[' => Some(65),
        ']' => Some(66),
        '\\' => Some(67),
        ';' => Some(68),
        '\'' => Some(69),
        '/' => Some(70),
        '~' => Some(71),
        '@' => Some(72),
        '#' => Some(73),
        '$' => Some(74),
        '%' => Some(75),
        '^' => Some(76),
        '&' => Some(77),
        '*' => Some(78),
        '(' => Some(79),
        ')' => Some(80),
        '_' => Some(81),
        '+' => Some(82),
        '{' => Some(83),
        '}' => Some(84),
        '|' => Some(85),
        '"' => Some(86),
        '<' => Some(87),
        '>' => Some(88),
        _ => None,
    }
}

/// What `char::to_uppercase` of the standard library makes of a character:
/// one character or several.
pub uninterp spec fn upper_of(c: char) -> Seq<char>;

/// The upper case of a character, by `char::to_uppercase` of the standard
/// library, whose result depends on the character alone.
#[verifier::external_body]
fn upper(c: char) -> (r: Vec<char>)
    ensures
        r@ == upper_of(c),
{
    c.to_uppercase().collect()
}

/// A word as it is, or with its first character in upper case.
pub open spec fn capitalize_spec(word: Seq<char>, existing: bool) -> Seq<char> {
    if existing || word.len() == 0 {
        word
    } else {
        upper_of(word[0]) + word.skip(1)
    }
}

/// The word at an index of the dictionary, without the white space around
/// it.
pub open spec fn word_at(dictionary: Seq<Seq<char>>, i: int) -> Option<Seq<char>> {
    if 0 <= i < dictionary.len() {
        Some(trimmed(dictionary[i]))
    } else {
        None
    }
}

/// The expansion from the `i`-th character on, behind what `acc` holds. A
/// character of the table and the one behind it address a word, which is
/// capitalized if all words are, or if it is the first thing in the result.
/// A character of the table before one that is not (or before the end, which
/// counts as the character NUL) addresses the first word of its hundred and
/// is followed by that other character. Any other character stands for
/// itself. There is no expansion when a word is addressed that the
/// dictionary does not have.
pub open spec fn expand_from(
    dictionary: Seq<Seq<char>>,
    s: Seq<char>,
    all_cap: bool,
    i: int,
    acc: Seq<char>,
) -> Option<Seq<char>>
    decreases s.len() + 1 - i,
{
    if i < 0 || i >= s.len() {
        Some(acc)
    } else {
        let first = s[i];
        let second = if i + 1 < s.len() {
            s[i + 1]
        } else {
            '\0'
        };
        match code_of(first) {
            Some(a) => {
                let existing = !all_cap && acc.len() > 0;
                match code_of(second) {
                    Some(b) => match word_at(dictionary, a * 100 + b) {
                        Some(w) => expand_from(
                            dictionary,
                            s,
                            all_cap,
                            i + 2,
                            acc + capitalize_spec(w, existing),
                        ),
                        None => None,
                    },
                    None => match word_at(dictionary, a * 100) {
                        Some(w) => expand_from(
                            dictionary,
                            s,
                            all_cap,
                            i + 2,
                            (acc + capitalize_spec(w, existing)).push(second),
                        ),
                        None => None,
                    },
                }
            },
            None => expand_from(dictionary, s, all_cap, i + 1, acc.push(first)),
        }
    }
}

/// The text that a compressed string literal stands for.
pub open spec fn decompress_spec(dictionary: Seq<Seq<char>>, chars: Seq<char>, all_cap: bool)
    -> Option<Seq<char>> {
    expand_from(dictionary, trimmed(chars), all_cap, 0, Seq::empty())
}

fn code(c: char) -> (r: Option<usize>)
    ensures
        r == code_of(c),
        r matches Some(i) ==> i < 100,
{
    match c {
        'a' => Some(0),
        'b' => Some(1),
        'c' => Some(2),
        'd' => Some(3),
        'e' => Some(4),
        'f' => Some(5),
        'g' => Some(6),
        'h' => Some(7),
        'i' => Some(8),
        'j' => Some(9),
        'k' => Some(10),
        'l' => Some(11),
        'm' => Some(12),
        'n' => Some(13),
        'o' => Some(14),
        'p' => Some(15),
        'q' => Some(16),
        'r' => Some(17),
        's' => Some(18),
        't' => Some(19),
        'u' => Some(20),
        'v' => Some(21),
        'w' => Some(22),
        'x' => Some(23),
        'y' => Some(24),
        'z' => Some(25),
        'A' => Some(26),
        'B' => Some(27),
        'C' => Some(28),
        'D' => Some(29),
        'E' => Some(30),
        'F' => Some(31),
        'G' => Some(32),
        'H' => Some(33),
        'I' => Some(34),
        'J' => Some(35),
        'K' => Some(36),
        'L' => Some(37),
        'M' => Some(38),
        'N' => Some(39),
        'O' => Some(40),
        'P' => Some(41),
        'Q' => Some(42),
        'R' => Some(43),
        'S' => Some(44),
        'T' => Some(45),
        'U' => Some(46),
        'V' => Some(47),
        'W' => Some(48),
        'X' => Some(49),
        'Y' => Some(50),
        'Z' => Some(51),
        '`' => Some(52),
        '1' => Some(53),
        '2' => Some(54),
        '3' => Some(55),
        '4' => Some(56),
        '5' => Some(57),
        '6' => Some(58),
        '7' => Some(59),
        '8' => Some(60),
        '9' => Some(61),
        '0' => Some(62),
        '-' => Some(63),
        '=' => Some(64),
        '[' => Some(65),
        ']' => Some(66),
        '\\' => Some(67),
        ';' => Some(68),
        '\'' => Some(69),
        '/' => Some(70),
        '~' => Some(71),
        '@' => Some(72),
        '#' => Some(73),
        '$' => Some(74),
        '%' => Some(75),
        '^' => Some(76),
        '&' => Some(77),
        '*' => Some(78),
        '(' => Some(79),
        ')' => Some(80),
        '_' => Some(81),
        '+' => Some(82),
        '{' => Some(83),
        '}' => Some(84),
        '|' => Some(85),
        '"' => Some(86),
        '<' => Some(87),
        '>' => Some(88),
        _ => None,
    }
}

fn append(out: &mut Vec<char>, more: &Vec<char>, from: usize)
    requires
        from <= more@.len(),
    ensures
        final(out)@ == old(out)@ + more@.skip(from as int),
{
    let mut i: usize = from;
    assert(out@ =~= old(out)@ + more@.subrange(from as int, i as int));
    while i < more.len()
        invariant
            from <= i <= more@.len(),
            out@ == old(out)@ + more@.subrange(from as int, i as int),
        decreases more.len() - i,
    {
        out.push(more[i]);
        i += 1;
        assert(out@ =~= old(out)@ + more@.subrange(from as int, i as int));
    }
    assert(more@.subrange(from as int, more@.len() as int) =~= more@.skip(from as int));
}

/// A word as it is if `existing`, else with its first character in upper
/// case.
pub fn capitalize(word: &str, existing: bool) -> (r: String)
    ensures
        r@ == capitalize_spec(word@, existing),
{
    let w = chars_of(word);
    if existing || w.len() == 0 {
        string_of(&w)
    } else {
        let mut out = upper(w[0]);
        append(&mut out, &w, 1);
        string_of(&out)
    }
}

/// Expands a compressed string literal with the given dictionary. The
/// result is `None` when the literal addresses a word that the dictionary
/// does not have.
pub fn decompress(chars: &str, all_cap: bool, dictionary: &Vec<String>) -> (r: Option<String>)
    ensures
        match r {
            Some(t) => decompress_spec(words_model(dictionary@), chars@, all_cap) == Some(t@),
            None => decompress_spec(words_model(dictionary@), chars@, all_cap) is None,
        },
{
    let s = trim_white(&chars_of(chars));
    let mut out: Vec<char> = Vec::new();
    let mut i: usize = 0;
    let ghost words = words_model(dictionary@);
    while i < s.len()
        invariant
            i <= s@.len() + 1,
            words == words_model(dictionary@),
            s@ == trimmed(chars@),
            decompress_spec(words, chars@, all_cap) == expand_from(
                words,
                s@,
                all_cap,
                i as int,
                out@,
            ),
        decreases s.len() + 1 - i,
    {
        let first = s[i];
        let second = if i + 1 < s.len() {
            s[i + 1]
        } else {
            '\0'
        };
        match code(first) {
            Some(a) => {
                let existing = !all_cap && out.len() > 0;
                let (index, tail) = match code(second) {
                    Some(b) => (a * 100 + b, false),
                    None => (a * 100, true),
                };
                if index >= dictionary.len() {
                    return None;
                }
                let word = capitalize(trim_str(dictionary[index].as_str()).as_str(), existing);
                let w = chars_of(word.as_str());
                append(&mut out, &w, 0);
                assert(w@.skip(0) =~= w@);
                if tail {
                    out.push(second);
                }
                if s.len() - i < 2 {
                    i = s.len();
                    assert(expand_from(words, s@, all_cap, i + 1, out@) == Some(out@));
                } else {
                    i += 2;
                }
            },
            None => {
                out.push(first);
                i += 1;
            },
        }
    }
    Some(string_of(&out))
}

} // verus!
