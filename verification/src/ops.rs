//! The closed table of operators: for each symbol what it does, how tightly
//! it binds, and the number of arguments it takes on the left and on the
//! right.

use vstd::prelude::*;

verus! {

/// What an operator does, named after its symbol.
#[derive(Clone, Copy, PartialEq, Eq, Structural, Debug)]
pub enum OpCode {
    /// `.`
    Call,
    /// `^`
    Pow,
    /// `*`
    Mul,
    /// `/`
    Div,
    /// `%`
    Rem,
    /// `+`
    Add,
    /// `-`
    Sub,
    /// `~`
    RangeFromOne,
    /// `#`
    Length,
    /// `;`
    Base,
    /// `!`
    Not,
    /// `z`
    Zip,
    /// `?`
    Nth,
    /// `|`
    Concat,
    /// `=`
    Equal,
    /// `<`
    Less,
    /// `>`
    Greater,
    /// `:`
    DoWhile,
    /// `@`
    MapEach,
    /// `&`
    Bind,
    /// `$`
    Filter,
    /// `\`
    Fold,
    /// `<>`
    Pair,
    /// `:|`
    Join,
    /// `:!`
    Split,
    /// `.$`
    SplitAt,
    /// `.~`
    RangeDown,
    /// `=>`
    RangeInclusive,
    /// `->`
    RangeExclusive,
    /// `:_`
    Flatten,
    /// `:%`
    Transpose,
    /// `.|`
    Abs,
    /// `.<`
    Reverse,
    /// `..`
    Rangify,
    /// `.=`
    RangifyInclusive,
    /// `:n`
    Lines,
    /// `:s`
    Words,
    /// `:}`
    Tail,
    /// `:{`
    Head,
    /// `.}`
    DropLast,
    /// `.{`
    Behead,
    /// `:@`
    Group,
    /// `^*`
    IsSquare,
    /// `&.`
    Repeat,
    /// `:i`
    IndexOf,
    /// `:v`
    Floor,
    /// `:^`
    Ceil,
    /// `++`
    Increment,
    /// `--`
    Decrement,
    /// `:*`
    Square,
    /// `:/`
    Sqrt,
    /// `:+`
    Double,
    /// `:-`
    Halve,
    /// `:>`
    SortDescending,
    /// `:<`
    SortAscending,
    /// `|:`
    Bifurcate,
    /// `?.`
    RandomPick,
    /// `#.`
    Primes,
    /// `*.`
    Factors,
    /// `$.`
    Halves,
    /// `#>`
    Dedup,
    /// `#:`
    DedupSieve,
    /// `!.`
    NotAll,
    /// `!=`
    NotEqual,
    /// `<=`
    LessEqual,
    /// `>=`
    GreaterEqual,
    /// `&&`
    And,
    /// `||`
    Or,
    /// `::`
    Adjacent,
    /// `??`
    Conditional,
    /// `$:`
    Any,
    /// `/:`
    Count,
    /// `:\`
    MapFold,
    /// `:=`
    Define,
}

/// One row of the operator table.
#[derive(Clone, Copy, PartialEq, Eq, Structural, Debug)]
pub struct OpInfo {
    pub code: OpCode,
    pub precedence: i32,
    pub left: i32,
    pub right: i32,
}

/// The row of a one-character symbol.
pub open spec fn single_info(c: char) -> Option<OpInfo> {
    match c {
        '.' => Some(OpInfo { code: OpCode::Call, precedence: 11, left: 1, right: 1 }),
        '^' => Some(OpInfo { code: OpCode::Pow, precedence: 10, left: 1, right: 1 }),
        '*' => Some(OpInfo { code: OpCode::Mul, precedence: 9, left: 1, right: 1 }),
        '/' => Some(OpInfo { code: OpCode::Div, precedence: 9, left: 1, right: 1 }),
        '%' => Some(OpInfo { code: OpCode::Rem, precedence: 8, left: 1, right: 1 }),
        '+' => Some(OpInfo { code: OpCode::Add, precedence: 6, left: 1, right: 1 }),
        '-' => Some(OpInfo { code: OpCode::Sub, precedence: 6, left: 1, right: 1 }),
        '~' => Some(OpInfo { code: OpCode::RangeFromOne, precedence: 5, left: 0, right: 1 }),
        '#' => Some(OpInfo { code: OpCode::Length, precedence: 5, left: 1, right: 0 }),
        ';' => Some(OpInfo { code: OpCode::Base, precedence: 5, left: 1, right: 1 }),
        '!' => Some(OpInfo { code: OpCode::Not, precedence: 4, left: 0, right: 1 }),
        'z' => Some(OpInfo { code: OpCode::Zip, precedence: 4, left: 1, right: 1 }),
        '?' => Some(OpInfo { code: OpCode::Nth, precedence: 4, left: 1, right: 1 }),
        '|' => Some(OpInfo { code: OpCode::Concat, precedence: 3, left: 1, right: 1 }),
        '=' => Some(OpInfo { code: OpCode::Equal, precedence: 2, left: 1, right: 1 }),
        '<' => Some(OpInfo { code: OpCode::Less, precedence: 2, left: 1, right: 1 }),
        '>' => Some(OpInfo { code: OpCode::Greater, precedence: 2, left: 1, right: 1 }),
        ':' => Some(OpInfo { code: OpCode::DoWhile, precedence: 0, left: 1, right: 1 }),
        '@' => Some(OpInfo { code: OpCode::MapEach, precedence: 0, left: 1, right: 1 }),
        '&' => Some(OpInfo { code: OpCode::Bind, precedence: 0, left: 1, right: 1 }),
        '$' => Some(OpInfo { code: OpCode::Filter, precedence: 0, left: 0, right: 2 }),
        '\\' => Some(OpInfo { code: OpCode::Fold, precedence: 0, left: 1, right: 1 }),
        _ => None,
    }
}

/// The row of a two-character symbol.
pub open spec fn pair_info(a: char, b: char) -> Option<OpInfo> {
    match (a, b) {
        ('<', '>') => Some(OpInfo { code: OpCode::Pair, precedence: 10, left: 1, right: 1 }),
        (':', '|') => Some(OpInfo { code: OpCode::Join, precedence: 7, left: 1, right: 1 }),
        (':', '!') => Some(OpInfo { code: OpCode::Split, precedence: 7, left: 1, right: 1 }),
        ('.', '$') => Some(OpInfo { code: OpCode::SplitAt, precedence: 6, left: 1, right: 1 }),
        ('.', '~') => Some(OpInfo { code: OpCode::RangeDown, precedence: 5, left: 1, right: 0 }),
        ('=', '>') => Some(OpInfo { code: OpCode::RangeInclusive, precedence: 5, left: 1, right: 1 }),
        ('-', '>') => Some(OpInfo { code: OpCode::RangeExclusive, precedence: 5, left: 1, right: 1 }),
        (':', '_') => Some(OpInfo { code: OpCode::Flatten, precedence: 5, left: 1, right: 0 }),
        (':', '%') => Some(OpInfo { code: OpCode::Transpose, precedence: 5, left: 1, right: 0 }),
        ('.', '|') => Some(OpInfo { code: OpCode::Abs, precedence: 5, left: 1, right: 0 }),
        ('.', '<') => Some(OpInfo { code: OpCode::Reverse, precedence: 5, left: 1, right: 0 }),
        ('.', '.') => Some(OpInfo { code: OpCode::Rangify, precedence: 5, left: 1, right: 0 }),
        ('.', '=') => Some(OpInfo { code: OpCode::RangifyInclusive, precedence: 5, left: 1, right: 0 }),
        (':', 'n') => Some(OpInfo { code: OpCode::Lines, precedence: 4, left: 1, right: 0 }),
        (':', 's') => Some(OpInfo { code: OpCode::Words, precedence: 4, left: 1, right: 0 }),
        (':', '}') => Some(OpInfo { code: OpCode::Tail, precedence: 4, left: 1, right: 0 }),
        (':', '{') => Some(OpInfo { code: OpCode::Head, precedence: 4, left: 1, right: 0 }),
        ('.', '}') => Some(OpInfo { code: OpCode::DropLast, precedence: 4, left: 1, right: 0 }),
        ('.', '{') => Some(OpInfo { code: OpCode::Behead, precedence: 4, left: 1, right: 0 }),
        (':', '@') => Some(OpInfo { code: OpCode::Group, precedence: 4, left: 1, right: 0 }),
        ('^', '*') => Some(OpInfo { code: OpCode::IsSquare, precedence: 4, left: 1, right: 0 }),
        ('&', '.') => Some(OpInfo { code: OpCode::Repeat, precedence: 4, left: 0, right: 3 }),
        (':', 'i') => Some(OpInfo { code: OpCode::IndexOf, precedence: 4, left: 1, right: 1 }),
        (':', 'v') => Some(OpInfo { code: OpCode::Floor, precedence: 4, left: 0, right: 1 }),
        (':', '^') => Some(OpInfo { code: OpCode::Ceil, precedence: 4, left: 0, right: 1 }),
        ('+', '+') => Some(OpInfo { code: OpCode::Increment, precedence: 4, left: 0, right: 1 }),
        ('-', '-') => Some(OpInfo { code: OpCode::Decrement, precedence: 4, left: 0, right: 1 }),
        (':', '*') => Some(OpInfo { code: OpCode::Square, precedence: 4, left: 0, right: 1 }),
        (':', '/') => Some(OpInfo { code: OpCode::Sqrt, precedence: 4, left: 0, right: 1 }),
        (':', '+') => Some(OpInfo { code: OpCode::Double, precedence: 4, left: 0, right: 1 }),
        (':', '-') => Some(OpInfo { code: OpCode::Halve, precedence: 4, left: 0, right: 1 }),
        (':', '>') => Some(OpInfo { code: OpCode::SortDescending, precedence: 4, left: 0, right: 1 }),
        (':', '<') => Some(OpInfo { code: OpCode::SortAscending, precedence: 4, left: 0, right: 1 }),
        ('|', ':') => Some(OpInfo { code: OpCode::Bifurcate, precedence: 4, left: 0, right: 1 }),
        ('?', '.') => Some(OpInfo { code: OpCode::RandomPick, precedence: 4, left: 0, right: 1 }),
        ('#', '.') => Some(OpInfo { code: OpCode::Primes, precedence: 4, left: 0, right: 1 }),
        ('*', '.') => Some(OpInfo { code: OpCode::Factors, precedence: 4, left: 0, right: 1 }),
        ('$', '.') => Some(OpInfo { code: OpCode::Halves, precedence: 4, left: 0, right: 1 }),
        ('#', '>') => Some(OpInfo { code: OpCode::Dedup, precedence: 4, left: 0, right: 1 }),
        ('#', ':') => Some(OpInfo { code: OpCode::DedupSieve, precedence: 4, left: 0, right: 1 }),
        ('!', '.') => Some(OpInfo { code: OpCode::NotAll, precedence: 4, left: 0, right: 1 }),
        ('!', '=') => Some(OpInfo { code: OpCode::NotEqual, precedence: 2, left: 1, right: 1 }),
        ('<', '=') => Some(OpInfo { code: OpCode::LessEqual, precedence: 2, left: 1, right: 1 }),
        ('>', '=') => Some(OpInfo { code: OpCode::GreaterEqual, precedence: 2, left: 1, right: 1 }),
        ('&', '&') => Some(OpInfo { code: OpCode::And, precedence: 1, left: 1, right: 1 }),
        ('|', '|') => Some(OpInfo { code: OpCode::Or, precedence: 1, left: 1, right: 1 }),
        (':', ':') => Some(OpInfo { code: OpCode::Adjacent, precedence: 0, left: 1, right: 1 }),
        ('?', '?') => Some(OpInfo { code: OpCode::Conditional, precedence: 0, left: 1, right: 2 }),
        ('$', ':') => Some(OpInfo { code: OpCode::Any, precedence: 0, left: 0, right: 2 }),
        ('/', ':') => Some(OpInfo { code: OpCode::Count, precedence: 0, left: 0, right: 2 }),
        (':', '\\') => Some(OpInfo { code: OpCode::MapFold, precedence: 0, left: 1, right: 1 }),
        (':', '=') => Some(OpInfo { code: OpCode::Define, precedence: -1i32, left: 1, right: 1 }),
        _ => None,
    }
}

/// The row of a symbol, if the table has it. Every symbol is one or two
/// characters long.
pub open spec fn op_info(symbol: Seq<char>) -> Option<OpInfo> {
    if symbol.len() == 1 {
        single_info(symbol[0])
    } else if symbol.len() == 2 {
        pair_info(symbol[0], symbol[1])
    } else {
        None
    }
}

/// Whether the table has the symbol.
pub open spec fn is_operator(symbol: Seq<char>) -> bool {
    op_info(symbol) is Some
}

/// The argument counts of a row, as a token carries them.
pub open spec fn rank_of(info: OpInfo) -> (i32, i32) {
    (info.left, info.right)
}

/// Every row takes at most one argument on the left and at most three on the
/// right, and its precedence lies between -1 and 11.
pub proof fn lemma_op_info_bounds(symbol: Seq<char>)
    requires
        is_operator(symbol),
    ensures
        0 <= op_info(symbol)->0.left <= 1,
        0 <= op_info(symbol)->0.right <= 3,
        -1 <= op_info(symbol)->0.precedence <= 11,
{
}

fn lookup_single(c: char) -> (r: Option<OpInfo>)
    ensures
        r == single_info(c),
{
    match c {
        '.' => Some(OpInfo { code: OpCode::Call, precedence: 11, left: 1, right: 1 }),
        '^' => Some(OpInfo { code: OpCode::Pow, precedence: 10, left: 1, right: 1 }),
        '*' => Some(OpInfo { code: OpCode::Mul, precedence: 9, left: 1, right: 1 }),
        '/' => Some(OpInfo { code: OpCode::Div, precedence: 9, left: 1, right: 1 }),
        '%' => Some(OpInfo { code: OpCode::Rem, precedence: 8, left: 1, right: 1 }),
        '+' => Some(OpInfo { code: OpCode::Add, precedence: 6, left: 1, right: 1 }),
        '-' => Some(OpInfo { code: OpCode::Sub, precedence: 6, left: 1, right: 1 }),
        '~' => Some(OpInfo { code: OpCode::RangeFromOne, precedence: 5, left: 0, right: 1 }),
        '#' => Some(OpInfo { code: OpCode::Length, precedence: 5, left: 1, right: 0 }),
        ';' => Some(OpInfo { code: OpCode::Base, precedence: 5, left: 1, right: 1 }),
        '!' => Some(OpInfo { code: OpCode::Not, precedence: 4, left: 0, right: 1 }),
        'z' => Some(OpInfo { code: OpCode::Zip, precedence: 4, left: 1, right: 1 }),
        '?' => Some(OpInfo { code: OpCode::Nth, precedence: 4, left: 1, right: 1 }),
        '|' => Some(OpInfo { code: OpCode::Concat, precedence: 3, left: 1, right: 1 }),
        '=' => Some(OpInfo { code: OpCode::Equal, precedence: 2, left: 1, right: 1 }),
        '<' => Some(OpInfo { code: OpCode::Less, precedence: 2, left: 1, right: 1 }),
        '>' => Some(OpInfo { code: OpCode::Greater, precedence: 2, left: 1, right: 1 }),
        ':' => Some(OpInfo { code: OpCode::DoWhile, precedence: 0, left: 1, right: 1 }),
        '@' => Some(OpInfo { code: OpCode::MapEach, precedence: 0, left: 1, right: 1 }),
        '&' => Some(OpInfo { code: OpCode::Bind, precedence: 0, left: 1, right: 1 }),
        '$' => Some(OpInfo { code: OpCode::Filter, precedence: 0, left: 0, right: 2 }),
        '\\' => Some(OpInfo { code: OpCode::Fold, precedence: 0, left: 1, right: 1 }),
        _ => None,
    }
}

fn lookup_pair(a: char, b: char) -> (r: Option<OpInfo>)
    ensures
        r == pair_info(a, b),
{
    match (a, b) {
        ('<', '>') => Some(OpInfo { code: OpCode::Pair, precedence: 10, left: 1, right: 1 }),
        (':', '|') => Some(OpInfo { code: OpCode::Join, precedence: 7, left: 1, right: 1 }),
        (':', '!') => Some(OpInfo { code: OpCode::Split, precedence: 7, left: 1, right: 1 }),
        ('.', '$') => Some(OpInfo { code: OpCode::SplitAt, precedence: 6, left: 1, right: 1 }),
        ('.', '~') => Some(OpInfo { code: OpCode::RangeDown, precedence: 5, left: 1, right: 0 }),
        ('=', '>') => Some(OpInfo { code: OpCode::RangeInclusive, precedence: 5, left: 1, right: 1 }),
        ('-', '>') => Some(OpInfo { code: OpCode::RangeExclusive, precedence: 5, left: 1, right: 1 }),
        (':', '_') => Some(OpInfo { code: OpCode::Flatten, precedence: 5, left: 1, right: 0 }),
        (':', '%') => Some(OpInfo { code: OpCode::Transpose, precedence: 5, left: 1, right: 0 }),
        ('.', '|') => Some(OpInfo { code: OpCode::Abs, precedence: 5, left: 1, right: 0 }),
        ('.', '<') => Some(OpInfo { code: OpCode::Reverse, precedence: 5, left: 1, right: 0 }),
        ('.', '.') => Some(OpInfo { code: OpCode::Rangify, precedence: 5, left: 1, right: 0 }),
        ('.', '=') => Some(OpInfo { code: OpCode::RangifyInclusive, precedence: 5, left: 1, right: 0 }),
        (':', 'n') => Some(OpInfo { code: OpCode::Lines, precedence: 4, left: 1, right: 0 }),
        (':', 's') => Some(OpInfo { code: OpCode::Words, precedence: 4, left: 1, right: 0 }),
        (':', '}') => Some(OpInfo { code: OpCode::Tail, precedence: 4, left: 1, right: 0 }),
        (':', '{') => Some(OpInfo { code: OpCode::Head, precedence: 4, left: 1, right: 0 }),
        ('.', '}') => Some(OpInfo { code: OpCode::DropLast, precedence: 4, left: 1, right: 0 }),
        ('.', '{') => Some(OpInfo { code: OpCode::Behead, precedence: 4, left: 1, right: 0 }),
        (':', '@') => Some(OpInfo { code: OpCode::Group, precedence: 4, left: 1, right: 0 }),
        ('^', '*') => Some(OpInfo { code: OpCode::IsSquare, precedence: 4, left: 1, right: 0 }),
        ('&', '.') => Some(OpInfo { code: OpCode::Repeat, precedence: 4, left: 0, right: 3 }),
        (':', 'i') => Some(OpInfo { code: OpCode::IndexOf, precedence: 4, left: 1, right: 1 }),
        (':', 'v') => Some(OpInfo { code: OpCode::Floor, precedence: 4, left: 0, right: 1 }),
        (':', '^') => Some(OpInfo { code: OpCode::Ceil, precedence: 4, left: 0, right: 1 }),
        ('+', '+') => Some(OpInfo { code: OpCode::Increment, precedence: 4, left: 0, right: 1 }),
        ('-', '-') => Some(OpInfo { code: OpCode::Decrement, precedence: 4, left: 0, right: 1 }),
        (':', '*') => Some(OpInfo { code: OpCode::Square, precedence: 4, left: 0, right: 1 }),
        (':', '/') => Some(OpInfo { code: OpCode::Sqrt, precedence: 4, left: 0, right: 1 }),
        (':', '+') => Some(OpInfo { code: OpCode::Double, precedence: 4, left: 0, right: 1 }),
        (':', '-') => Some(OpInfo { code: OpCode::Halve, precedence: 4, left: 0, right: 1 }),
        (':', '>') => Some(OpInfo { code: OpCode::SortDescending, precedence: 4, left: 0, right: 1 }),
        (':', '<') => Some(OpInfo { code: OpCode::SortAscending, precedence: 4, left: 0, right: 1 }),
        ('|', ':') => Some(OpInfo { code: OpCode::Bifurcate, precedence: 4, left: 0, right: 1 }),
        ('?', '.') => Some(OpInfo { code: OpCode::RandomPick, precedence: 4, left: 0, right: 1 }),
        ('#', '.') => Some(OpInfo { code: OpCode::Primes, precedence: 4, left: 0, right: 1 }),
        ('*', '.') => Some(OpInfo { code: OpCode::Factors, precedence: 4, left: 0, right: 1 }),
        ('$', '.') => Some(OpInfo { code: OpCode::Halves, precedence: 4, left: 0, right: 1 }),
        ('#', '>') => Some(OpInfo { code: OpCode::Dedup, precedence: 4, left: 0, right: 1 }),
        ('#', ':') => Some(OpInfo { code: OpCode::DedupSieve, precedence: 4, left: 0, right: 1 }),
        ('!', '.') => Some(OpInfo { code: OpCode::NotAll, precedence: 4, left: 0, right: 1 }),
        ('!', '=') => Some(OpInfo { code: OpCode::NotEqual, precedence: 2, left: 1, right: 1 }),
        ('<', '=') => Some(OpInfo { code: OpCode::LessEqual, precedence: 2, left: 1, right: 1 }),
        ('>', '=') => Some(OpInfo { code: OpCode::GreaterEqual, precedence: 2, left: 1, right: 1 }),
        ('&', '&') => Some(OpInfo { code: OpCode::And, precedence: 1, left: 1, right: 1 }),
        ('|', '|') => Some(OpInfo { code: OpCode::Or, precedence: 1, left: 1, right: 1 }),
        (':', ':') => Some(OpInfo { code: OpCode::Adjacent, precedence: 0, left: 1, right: 1 }),
        ('?', '?') => Some(OpInfo { code: OpCode::Conditional, precedence: 0, left: 1, right: 2 }),
        ('$', ':') => Some(OpInfo { code: OpCode::Any, precedence: 0, left: 0, right: 2 }),
        ('/', ':') => Some(OpInfo { code: OpCode::Count, precedence: 0, left: 0, right: 2 }),
        (':', '\\') => Some(OpInfo { code: OpCode::MapFold, precedence: 0, left: 1, right: 1 }),
        (':', '=') => Some(OpInfo { code: OpCode::Define, precedence: -1i32, left: 1, right: 1 }),
        _ => None,
    }
}

/// Looks a symbol up in the table.
pub fn lookup(symbol: &Vec<char>) -> (r: Option<OpInfo>)
    ensures
        r == op_info(symbol@),
        r matches Some(info) ==> 0 <= info.left <= 1 && 0 <= info.right <= 3 && -1
            <= info.precedence <= 11,
{
    if symbol.len() == 1 {
        lookup_single(symbol[0])
    } else if symbol.len() == 2 {
        lookup_pair(symbol[0], symbol[1])
    } else {
        None
    }
}

} // verus!
