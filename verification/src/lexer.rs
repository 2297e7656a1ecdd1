//! The lexer: from the characters of a program to its tokens, with the
//! implicit argument `_` put in wherever an operator lacks an operand.

use crate::num::{arn_numeral, is_arn_chars, is_arn_num_spec, numeral_of_chars};
use crate::ops::{is_operator, lookup, op_info, rank_of, OpInfo};
use crate::text::{chars_of, string_of};
use crate::tokens::{
    lemma_block_model, lemma_tokens_push, token_model, token_sound, tokens_model, tokens_sound,
    Token, TokenModel,
};
use vstd::prelude::*;

verus! {

/// Why a program cannot be lexed: a grouping character without its partner.
#[derive(Clone, Copy, PartialEq, Eq, Structural, Debug)]
pub enum LexError {
    /// A closing character with no group open; it holds that character.
    MissingOpener(char),
    /// The program ends inside a group in brackets; it holds the closing
    /// character that is missing.
    MissingCloser(char),
}

/// The character that marks the end of a program. It closes an open string
/// and an open compressed string; a group in brackets that is open when it
/// comes has no closer.
pub open spec fn end_mark() -> char {
    '\u{2192}'
}

/// What `char::is_alphanumeric` of the standard library answers.
pub uninterp spec fn alphanumeric(c: char) -> bool;

/// `char::is_alphanumeric` of the standard library depends on the character
/// alone.
pub assume_specification[ char::is_alphanumeric ](c: char) -> (r: bool)
    ensures
        r == alphanumeric(c),
;

/// Whether every character is alphanumeric.
pub open spec fn all_alphanumeric(s: Seq<char>) -> bool {
    forall|i: int| 0 <= i < s.len() ==> alphanumeric(#[trigger] s[i])
}

/// The token of the implicit argument.
pub open spec fn placeholder() -> TokenModel {
    TokenModel::Variable(seq!['_'])
}

/// `n` tokens of the implicit argument.
pub open spec fn placeholders(n: int) -> Seq<TokenModel> {
    Seq::new(if n > 0 { n as nat } else { 0 }, |i: int| placeholder())
}

/// The index of the last operator token, if there is one.
pub open spec fn last_operator(ts: Seq<TokenModel>) -> Option<int>
    decreases ts.len(),
{
    if ts.len() == 0 {
        None
    } else if ts.last() is Operator {
        Some(ts.len() - 1)
    } else {
        last_operator(ts.drop_last())
    }
}

/// The state of the lexer between two characters.
pub struct LexModel {
    /// The tokens emitted so far.
    pub construct: Seq<TokenModel>,
    /// The characters of the token under construction.
    pub buf: Seq<char>,
    /// Inside a string literal.
    pub in_string: bool,
    /// Inside a group or a compressed string; the buffer then starts with
    /// the character that opened it.
    pub in_group: bool,
    /// How many groups of the same kind are open inside the current one.
    pub group_count: nat,
    /// The character that opened the current group.
    pub group_char: Option<char>,
}

/// The state before the first character.
pub open spec fn lex_start() -> LexModel {
    LexModel {
        construct: Seq::empty(),
        buf: Seq::empty(),
        in_string: false,
        in_group: false,
        group_count: 0,
        group_char: None,
    }
}

/// Whether the character opens a group with a body.
pub open spec fn is_bracket(c: char) -> bool {
    c == '{' || c == '(' || c == '['
}

/// Whether the character opens a compressed string.
pub open spec fn is_quote(c: char) -> bool {
    c == '`' || c == '\''
}

/// The character that closes what `c` opens.
pub open spec fn closer_of(c: char) -> char {
    if c == '{' {
        '}'
    } else if c == '(' {
        ')'
    } else if c == '[' {
        ']'
    } else {
        c
    }
}

/// The last character of the buffer, or the end mark when it is empty.
pub open spec fn last_or_mark(buf: Seq<char>) -> char {
    if buf.len() > 0 {
        buf.last()
    } else {
        end_mark()
    }
}

/// Inside braces a `}` or `{` right behind `.` or `:` belongs to an
/// operator and neither closes nor opens anything.
pub open spec fn counts_here(group: char, buf: Seq<char>) -> bool {
    group != '{' || (last_or_mark(buf) != '.' && last_or_mark(buf) != ':')
}

/// What happens before a character is looked at: an opening quote starts a
/// string, white space is dropped (a line feed leaves a comma), an opening
/// bracket or quote starts a group, and inside a group another opener of the
/// same kind is counted.
pub open spec fn lex_prepare(st: LexModel, tok: char) -> LexModel {
    let top = !st.in_string && !st.in_group;
    let s1 = if top && st.buf == seq!['"'] {
        LexModel { in_string: true, buf: Seq::empty(), ..st }
    } else if top && (st.buf == seq!['\n'] || st.buf == seq![' '] || st.buf == seq!['\r'] || st.buf
        == seq![end_mark()]) {
        LexModel {
            construct: if st.buf == seq!['\n'] {
                st.construct.push(TokenModel::Comma)
            } else {
                st.construct
            },
            buf: Seq::empty(),
            ..st
        }
    } else if top && st.buf.len() == 1 && (is_bracket(st.buf[0]) || is_quote(st.buf[0])) {
        LexModel { in_group: true, group_char: Some(st.buf[0]), group_count: 0, ..st }
    } else {
        st
    };
    if s1.in_group && s1.group_char == Some(tok) && is_bracket(tok) && counts_here(tok, s1.buf) {
        LexModel { group_count: s1.group_count + 1, ..s1 }
    } else {
        s1
    }
}

/// The tokens with the implicit arguments that an operator about to be
/// emitted needs on its left. With nothing before it, or right behind a
/// comma, it gets all of them. Otherwise the last operator before it decides:
/// if that one binds less tightly and takes arguments on its right, the new
/// operator's left is filled up behind it, else that operator's right.
pub open spec fn fill_left(construct: Seq<TokenModel>, info: OpInfo) -> Seq<TokenModel> {
    if info.left <= 0 {
        construct
    } else if construct.len() == 0 || construct.len() < info.left {
        construct + placeholders(info.left - construct.len())
    } else if construct.last() is Comma {
        construct + placeholders(info.left as int)
    } else {
        match last_operator(construct) {
            Some(pos) => {
                let used = fill_count(construct[pos], info);
                if construct.len() - pos <= used {
                    construct + placeholders(used - (construct.len() - pos - 1))
                } else {
                    construct
                }
            },
            None => construct,
        }
    }
}

/// How many operands must follow the operator `prev` before an operator with
/// the row `info` can be emitted.
pub open spec fn fill_count(prev: TokenModel, info: OpInfo) -> int {
    match prev {
        TokenModel::Operator(ident, stack_rank) => {
            if op_info(ident) is Some && op_info(ident)->0.precedence < info.precedence
                && stack_rank.1 > 0 {
                info.left as int
            } else if stack_rank.1 > 0 {
                stack_rank.1 as int
            } else {
                0
            }
        },
        _ => 0,
    }
}

/// The body of a closed group: the buffer without its opening character.
pub open spec fn group_body(buf: Seq<char>) -> Seq<char> {
    if buf.len() > 0 {
        buf.skip(1)
    } else {
        buf
    }
}

/// One character inside a string literal: `\"` stands for a quote, a quote
/// or the end mark closes the string.
pub open spec fn lex_in_string(st: LexModel, tok: char) -> LexModel {
    if tok == '"' && st.buf.len() > 0 && st.buf.last() == '\\' {
        LexModel { buf: st.buf.drop_last().push('"'), ..st }
    } else if tok == '"' || tok == end_mark() {
        LexModel {
            construct: st.construct.push(TokenModel::String(st.buf)),
            buf: Seq::empty(),
            in_string: false,
            ..st
        }
    } else {
        LexModel { buf: st.buf.push(tok), ..st }
    }
}

/// The tokens after a group with the given body tokens has closed. A `{`
/// group takes an identifier right before it as its parameter name.
pub open spec fn emit_block(construct: Seq<TokenModel>, body: Seq<TokenModel>, group: char) -> Seq<
    TokenModel,
> {
    if group == '{' && construct.len() > 0 && construct.last() is Variable {
        construct.drop_last().push(
            TokenModel::Block(body, '{', Some(construct.last()->Variable_0)),
        )
    } else {
        construct.push(TokenModel::Block(body, group, None))
    }
}

/// One character at the top level, where the buffer decides: a number or an
/// operator is extended as far as it goes and then emitted, an identifier
/// ends at the first character that is not alphanumeric, a comma is emitted
/// as it is. A closing bracket here has no opener.
pub open spec fn lex_top(st: LexModel, tok: char) -> Result<LexModel, LexError> {
    if is_arn_num_spec(st.buf) {
        if is_arn_num_spec(st.buf.push(tok)) {
            Ok(LexModel { buf: st.buf.push(tok), ..st })
        } else {
            let t = if st.buf == seq!['_'] {
                placeholder()
            } else {
                TokenModel::Number(arn_numeral(st.buf))
            };
            Ok(LexModel { construct: st.construct.push(t), buf: seq![tok], ..st })
        }
    } else if is_operator(st.buf) {
        let consumed = is_operator(st.buf.push(tok));
        let symbol = if consumed {
            st.buf.push(tok)
        } else {
            st.buf
        };
        let info = op_info(symbol)->0;
        Ok(
            LexModel {
                construct: fill_left(st.construct, info).push(
                    TokenModel::Operator(symbol, rank_of(info)),
                ),
                buf: if consumed {
                    Seq::empty()
                } else {
                    seq![tok]
                },
                ..st
            },
        )
    } else if st.buf.len() > 0 && all_alphanumeric(st.buf) {
        if alphanumeric(tok) {
            Ok(LexModel { buf: st.buf.push(tok), ..st })
        } else {
            Ok(
                LexModel {
                    construct: st.construct.push(TokenModel::Variable(st.buf)),
                    buf: seq![tok],
                    ..st
                },
            )
        }
    } else if st.buf == seq![','] {
        Ok(LexModel { construct: st.construct.push(TokenModel::Comma), buf: seq![tok], ..st })
    } else if st.buf == seq![')'] || st.buf == seq!['}'] || st.buf == seq![']'] {
        Err(LexError::MissingOpener(st.buf[0]))
    } else {
        Ok(LexModel { buf: st.buf.push(tok), ..st })
    }
}

/// One character inside a group. A compressed string ends at its quote or
/// at the end mark. A group in brackets ends at its closer when no inner
/// group of the same kind is open; the body is then lexed as a program of
/// its own. The end mark inside a group in brackets is an error: the closer
/// is missing.
pub open spec fn lex_in_group(bound: nat, st: LexModel, tok: char) -> Result<LexModel, LexError>
    decreases bound, 0nat, 0nat,
{
    let group = st.group_char->0;
    if is_quote(group) {
        if tok == group || tok == end_mark() {
            Ok(
                LexModel {
                    construct: st.construct.push(
                        TokenModel::CmpString(group_body(st.buf), group),
                    ),
                    buf: Seq::empty(),
                    in_group: false,
                    ..st
                },
            )
        } else {
            Ok(LexModel { buf: st.buf.push(tok), ..st })
        }
    } else if tok == end_mark() {
        Err(LexError::MissingCloser(closer_of(group)))
    } else if tok == closer_of(group) && counts_here(group, st.buf) {
        if st.group_count > 0 {
            Ok(
                LexModel {
                    group_count: (st.group_count - 1) as nat,
                    buf: st.buf.push(tok),
                    ..st
                },
            )
        } else if group_body(st.buf).len() < bound {
            match lex_spec(group_body(st.buf)) {
                Ok(body) => Ok(
                    LexModel {
                        construct: emit_block(st.construct, body, group),
                        buf: Seq::empty(),
                        in_group: false,
                        ..st
                    },
                ),
                Err(e) => Err(e),
            }
        } else {
            Err(LexError::MissingCloser(closer_of(group)))
        }
    } else {
        Ok(LexModel { buf: st.buf.push(tok), ..st })
    }
}

/// One step of the lexer: the state after the character `tok`.
pub open spec fn lex_step(bound: nat, st: LexModel, tok: char) -> Result<LexModel, LexError>
    decreases bound, 0nat, 1nat,
{
    let s = lex_prepare(st, tok);
    if s.in_string {
        Ok(lex_in_string(s, tok))
    } else if s.in_group && s.group_char is Some {
        lex_in_group(bound, s, tok)
    } else {
        lex_top(s, tok)
    }
}

/// The `i`-th character of the program followed by the end mark.
pub open spec fn marked_at(s: Seq<char>, i: int) -> char {
    if 0 <= i < s.len() {
        s[i]
    } else {
        end_mark()
    }
}

/// The tokens once the last character is through: an operator at the end
/// gets the implicit arguments that its right side lacks.
pub open spec fn lex_finish(construct: Seq<TokenModel>) -> Seq<TokenModel> {
    match last_operator(construct) {
        Some(pos) => construct + placeholders(
            construct[pos]->Operator_1.1 - (construct.len() - pos - 1),
        ),
        None => construct,
    }
}

/// The lexer run from the `i`-th character on.
pub open spec fn lex_run(s: Seq<char>, i: nat, st: LexModel) -> Result<Seq<TokenModel>, LexError>
    decreases s.len(), 1nat, s.len() + 1 - i,
{
    if i > s.len() {
        Ok(lex_finish(st.construct))
    } else {
        match lex_step(s.len(), st, marked_at(s, i as int)) {
            Ok(next) => lex_run(s, i + 1, next),
            Err(e) => Err(e),
        }
    }
}

/// The tokens of a program: the lexer run over its characters and the end
/// mark.
pub open spec fn lex_spec(s: Seq<char>) -> Result<Seq<TokenModel>, LexError>
    decreases s.len(), 2nat, 0nat,
{
    lex_run(s, 0, lex_start())
}

/// The character that opened the group in brackets that is open, if one
/// is: the lexer is inside the group, or has just read that character.
pub open spec fn open_bracket(st: LexModel) -> Option<char> {
    if st.in_string {
        None
    } else if st.in_group {
        if st.group_char is Some && is_bracket(st.group_char->0) {
            st.group_char
        } else {
            None
        }
    } else if st.buf.len() == 1 && is_bracket(st.buf[0]) {
        Some(st.buf[0])
    } else {
        None
    }
}

/// A program that ends while a group in brackets is open has no tokens:
/// the closer of that group is missing.
pub proof fn lemma_open_group_at_end(s: Seq<char>, st: LexModel)
    requires
        open_bracket(st) is Some,
    ensures
        lex_run(s, s.len(), st) == Err::<Seq<TokenModel>, LexError>(
            LexError::MissingCloser(closer_of(open_bracket(st)->0)),
        ),
{
    let group = open_bracket(st)->0;
    let prepared = lex_prepare(st, end_mark());
    assert(prepared.in_group && prepared.group_char == Some(group) && !prepared.in_string);
    assert(!is_quote(group));
    assert(marked_at(s, s.len() as int) == end_mark());
    assert(lex_step(s.len(), st, end_mark()) == Err::<LexModel, LexError>(
        LexError::MissingCloser(closer_of(group)),
    ));
}

/// The lexer's working state.
struct LexState {
    construct: Vec<Token>,
    buf: Vec<char>,
    in_string: bool,
    in_group: bool,
    group_count: usize,
    group_char: Option<char>,
}

impl LexState {
    spec fn model(&self) -> LexModel {
        LexModel {
            construct: tokens_model(self.construct@),
            buf: self.buf@,
            in_string: self.in_string,
            in_group: self.in_group,
            group_count: self.group_count as nat,
            group_char: self.group_char,
        }
    }

    spec fn wf(&self) -> bool {
        &&& self.in_group ==> self.group_char is Some && self.buf@.len() >= 1 && (is_bracket(
            self.group_char->0,
        ) || is_quote(self.group_char->0))
        &&& self.in_string ==> !self.in_group
        &&& tokens_sound(tokens_model(self.construct@))
    }
}

/// Dropping the last token drops the last model.
pub(crate) proof fn lemma_tokens_drop_last(ts: Seq<Token>)
    requires
        ts.len() > 0,
    ensures
        tokens_model(ts.drop_last()) == tokens_model(ts).drop_last(),
        tokens_model(ts).last() == token_model(ts.last()),
{
    assert(tokens_model(ts.drop_last()) =~= tokens_model(ts).drop_last());
}

fn is_one(buf: &Vec<char>, c: char) -> (r: bool)
    ensures
        r == (buf@ == seq![c]),
{
    if buf.len() == 1 && buf[0] == c {
        assert(buf@ =~= seq![c]);
        true
    } else {
        assert(seq![c].len() == 1 && seq![c][0] == c);
        false
    }
}

fn one(c: char) -> (v: Vec<char>)
    ensures
        v@ == seq![c],
{
    let mut v: Vec<char> = Vec::new();
    v.push(c);
    assert(v@ =~= seq![c]);
    v
}

fn bracket(c: char) -> (r: bool)
    ensures
        r == is_bracket(c),
{
    c == '{' || c == '(' || c == '['
}

fn quote(c: char) -> (r: bool)
    ensures
        r == is_quote(c),
{
    c == '`' || c == '\''
}

fn closer(c: char) -> (r: char)
    ensures
        r == closer_of(c),
{
    if c == '{' {
        '}'
    } else if c == '(' {
        ')'
    } else if c == '[' {
        ']'
    } else {
        c
    }
}

fn counts(group: char, buf: &Vec<char>) -> (r: bool)
    ensures
        r == counts_here(group, buf@),
{
    let last = if buf.len() > 0 {
        buf[buf.len() - 1]
    } else {
        '\u{2192}'
    };
    group != '{' || (last != '.' && last != ':')
}

fn every_alphanumeric(buf: &Vec<char>) -> (r: bool)
    ensures
        r == all_alphanumeric(buf@),
{
    let mut i: usize = 0;
    while i < buf.len()
        invariant
            i <= buf.len(),
            forall|k: int| 0 <= k < i ==> alphanumeric(#[trigger] buf@[k]),
        decreases buf.len() - i,
    {
        if !buf[i].is_alphanumeric() {
            return false;
        }
        i += 1;
    }
    true
}

fn with_char(buf: &Vec<char>, c: char) -> (v: Vec<char>)
    ensures
        v@ == buf@.push(c),
{
    let mut v = buf.clone();
    v.push(c);
    v
}

fn tail_of(buf: &Vec<char>) -> (v: Vec<char>)
    ensures
        v@ == group_body(buf@),
{
    let mut v: Vec<char> = Vec::new();
    let mut i: usize = 1;
    if buf.len() == 0 {
        assert(v@ =~= buf@);
        return v;
    }
    while i < buf.len()
        invariant
            1 <= i <= buf.len(),
            v@ == buf@.subrange(1, i as int),
        decreases buf.len() - i,
    {
        v.push(buf[i]);
        i += 1;
        assert(v@ =~= buf@.subrange(1, i as int));
    }
    assert(buf@.subrange(1, buf.len() as int) =~= buf@.skip(1));
    v
}

fn find_last_operator(ts: &Vec<Token>) -> (r: Option<usize>)
    ensures
        match r {
            Some(p) => p < ts.len() && last_operator(tokens_model(ts@)) == Some(p as int)
                && token_model(ts@[p as int]) is Operator,
            None => last_operator(tokens_model(ts@)) is None,
        },
{
    let mut j: usize = ts.len();
    assert(tokens_model(ts@).take(j as int) =~= tokens_model(ts@));
    while j > 0
        invariant
            j <= ts.len(),
            last_operator(tokens_model(ts@)) == last_operator(tokens_model(ts@).take(j as int)),
        decreases j,
    {
        let ghost m = tokens_model(ts@).take(j as int);
        assert(m.last() == token_model(ts@[j - 1]));
        assert(m.drop_last() =~= tokens_model(ts@).take(j - 1));
        match &ts[j - 1] {
            Token::Operator(_, _) => {
                return Some(j - 1);
            },
            _ => {},
        }
        j -= 1;
    }
    None
}

pub(crate) fn push_placeholders(ts: &mut Vec<Token>, n: usize)
    ensures
        tokens_model(final(ts)@) == tokens_model(old(ts)@) + placeholders(n as int),
        tokens_sound(tokens_model(old(ts)@)) ==> tokens_sound(tokens_model(final(ts)@)),
{
    let mut i: usize = 0;
    assert(tokens_model(ts@) =~= tokens_model(old(ts)@) + placeholders(0));
    while i < n
        invariant
            i <= n,
            tokens_model(ts@) == tokens_model(old(ts)@) + placeholders(i as int),
        decreases n - i,
    {
        let t = Token::Variable(string_of(&one('_')));
        proof {
            lemma_tokens_push(ts@, t);
            assert(tokens_model(old(ts)@) + placeholders(i + 1) =~= (tokens_model(old(ts)@)
                + placeholders(i as int)).push(placeholder()));
        }
        ts.push(t);
        i += 1;
    }
}

pub(crate) fn push_token(ts: &mut Vec<Token>, t: Token)
    ensures
        tokens_model(final(ts)@) == tokens_model(old(ts)@).push(token_model(t)),
        tokens_sound(tokens_model(old(ts)@)) && token_sound(token_model(t)) ==> tokens_sound(
            tokens_model(final(ts)@),
        ),
{
    proof {
        lemma_tokens_push(ts@, t);
    }
    ts.push(t);
}

fn prepare(st: &mut LexState, tok: char)
    requires
        is_bracket(tok) ==> old(st).group_count < usize::MAX,
        old(st).wf(),
    ensures
        final(st).model() == lex_prepare(old(st).model(), tok),
        final(st).buf@.len() <= old(st).buf@.len(),
        final(st).group_count <= old(st).group_count + 1,
        final(st).wf(),
{
    let top = !st.in_string && !st.in_group;
    if top && is_one(&st.buf, '"') {
        st.in_string = true;
        st.buf = Vec::new();
        assert(st.buf@ =~= Seq::<char>::empty());
    } else if top && (is_one(&st.buf, '\n') || is_one(&st.buf, ' ') || is_one(&st.buf, '\r')
        || is_one(&st.buf, '\u{2192}')) {
        if is_one(&st.buf, '\n') {
            push_token(&mut st.construct, Token::Comma);
        }
        st.buf = Vec::new();
        assert(st.buf@ =~= Seq::<char>::empty());
    } else if top && st.buf.len() == 1 && (bracket(st.buf[0]) || quote(st.buf[0])) {
        st.in_group = true;
        st.group_char = Some(st.buf[0]);
        st.group_count = 0;
    }
    if st.in_group && st.group_char == Some(tok) && bracket(tok) && counts(tok, &st.buf) {
        st.group_count = st.group_count + 1;
    }
}

fn step_string(st: &mut LexState, tok: char)
    requires
        old(st).wf(),
        old(st).in_string,
    ensures
        final(st).wf(),
        final(st).model() == lex_in_string(old(st).model(), tok),
        final(st).buf@.len() <= old(st).buf@.len() + 1,
        final(st).group_count == old(st).group_count,
        final(st).in_group == old(st).in_group,
        final(st).group_char == old(st).group_char,
        final(st).in_string ==> old(st).in_string,
{
    if tok == '"' && st.buf.len() > 0 && st.buf[st.buf.len() - 1] == '\\' {
        st.buf.pop();
        st.buf.push('"');
    } else if tok == '"' || tok == '\u{2192}' {
        let text = string_of(&st.buf);
        push_token(&mut st.construct, Token::String(text));
        st.buf = Vec::new();
        st.in_string = false;
        assert(st.buf@ =~= Seq::<char>::empty());
    } else {
        st.buf.push(tok);
    }
}

fn emit(construct: &mut Vec<Token>, body: Vec<Token>, group: char)
    ensures
        tokens_model(final(construct)@) == emit_block(
            tokens_model(old(construct)@),
            tokens_model(body@),
            group,
        ),
        tokens_sound(tokens_model(old(construct)@)) && tokens_sound(tokens_model(body@))
            && is_bracket(group) ==> tokens_sound(tokens_model(final(construct)@)),
{
    let n = construct.len();
    if group == '{' && n > 0 {
        proof {
            lemma_tokens_drop_last(construct@);
        }
        let is_variable = match &construct[n - 1] {
            Token::Variable(_) => true,
            _ => false,
        };
        if is_variable {
            let last = construct.pop();
            match last {
                Some(Token::Variable(name)) => {
                    let t = Token::Block(body, '{', Some(name));
                    proof {
                        lemma_block_model(body, '{', Some(name));
                    }
                    push_token(construct, t);
                    return ;
                },
                _ => {
                    assert(false);
                    return ;
                },
            }
        }
    }
    let t = Token::Block(body, group, None);
    proof {
        lemma_block_model(body, group, None);
    }
    push_token(construct, t);
}

fn step_group(st: &mut LexState, tok: char, Ghost(bound): Ghost<nat>) -> (r: Result<(), LexError>)
    requires
        old(st).wf(),
        old(st).in_group,
        !old(st).in_string,
        old(st).buf@.len() <= bound,
    ensures
        match r {
            Ok(_) => lex_in_group(bound, old(st).model(), tok) == Ok::<LexModel, LexError>(
                final(st).model(),
            ),
            Err(e) => lex_in_group(bound, old(st).model(), tok) == Err::<LexModel, LexError>(e),
        },
        final(st).buf@.len() <= old(st).buf@.len() + 1,
        final(st).group_count <= old(st).group_count,
        final(st).wf(),
    decreases bound, 0nat, 0nat,
{
    let group = match st.group_char {
        Some(c) => c,
        None => ' ',
    };
    if quote(group) {
        if tok == group || tok == '\u{2192}' {
            let text = string_of(&tail_of(&st.buf));
            push_token(&mut st.construct, Token::CmpString(text, group));
            st.buf = Vec::new();
            st.in_group = false;
            assert(st.buf@ =~= Seq::<char>::empty());
        } else {
            st.buf.push(tok);
        }
        Ok(())
    } else if tok == '\u{2192}' {
        Err(LexError::MissingCloser(closer(group)))
    } else if tok == closer(group) && counts(group, &st.buf) {
        if st.group_count > 0 {
            st.group_count = st.group_count - 1;
            st.buf.push(tok);
            Ok(())
        } else {
            let body_chars = tail_of(&st.buf);
            match lex_chars(&body_chars) {
                Ok(body) => {
                    emit(&mut st.construct, body, group);
                    st.buf = Vec::new();
                    st.in_group = false;
                    assert(st.buf@ =~= Seq::<char>::empty());
                    Ok(())
                },
                Err(e) => Err(e),
            }
        }
    } else {
        st.buf.push(tok);
        Ok(())
    }
}

fn fill(construct: &mut Vec<Token>, info: OpInfo)
    requires
        0 <= info.left <= 1,
    ensures
        tokens_model(final(construct)@) == fill_left(tokens_model(old(construct)@), info),
        tokens_sound(tokens_model(old(construct)@)) ==> tokens_sound(
            tokens_model(final(construct)@),
        ),
{
    let n = construct.len();
    if info.left <= 0 {
        return ;
    }
    if n == 0 {
        push_placeholders(construct, 1);
        return ;
    }
    proof {
        lemma_tokens_drop_last(construct@);
    }
    let after_comma = match &construct[n - 1] {
        Token::Comma => true,
        _ => false,
    };
    if after_comma {
        push_placeholders(construct, 1);
        return ;
    }
    match find_last_operator(construct) {
        Some(pos) => {
            let used: usize = match &construct[pos] {
                Token::Operator(ident, stack_rank) => {
                    let ident_chars = chars_of(ident.as_str());
                    let lower = match lookup(&ident_chars) {
                        Some(prev) => prev.precedence < info.precedence,
                        None => false,
                    };
                    if lower && stack_rank.1 > 0 {
                        1
                    } else if stack_rank.1 > 0 {
                        stack_rank.1 as usize
                    } else {
                        0
                    }
                },
                _ => 0,
            };
            assert(used as int == fill_count(tokens_model(construct@)[pos as int], info));
            if n - pos <= used {
                push_placeholders(construct, used - (n - pos - 1));
            }
        },
        None => {},
    }
}

fn step_top(st: &mut LexState, tok: char) -> (r: Result<(), LexError>)
    requires
        old(st).wf(),
        !old(st).in_group,
        !old(st).in_string,
    ensures
        final(st).wf(),
        match r {
            Ok(_) => lex_top(old(st).model(), tok) == Ok::<LexModel, LexError>(final(st).model()),
            Err(e) => lex_top(old(st).model(), tok) == Err::<LexModel, LexError>(e),
        },
        final(st).buf@.len() <= old(st).buf@.len() + 1,
        final(st).group_count == old(st).group_count,
        !final(st).in_group,
        !final(st).in_string,
{
    if is_arn_chars(&st.buf) {
        let longer = with_char(&st.buf, tok);
        if is_arn_chars(&longer) {
            st.buf = longer;
        } else {
            let t = if is_one(&st.buf, '_') {
                Token::Variable(string_of(&st.buf))
            } else {
                Token::Number(numeral_of_chars(&st.buf))
            };
            push_token(&mut st.construct, t);
            st.buf = one(tok);
        }
        return Ok(());
    }
    if let Some(short) = lookup(&st.buf) {
        let longer = with_char(&st.buf, tok);
        let (symbol, info, consumed) = match lookup(&longer) {
            Some(info) => (longer, info, true),
            None => (st.buf.clone(), short, false),
        };
        fill(&mut st.construct, info);
        push_token(&mut st.construct, Token::Operator(string_of(&symbol), (info.left, info.right)));
        st.buf = if consumed {
            Vec::new()
        } else {
            one(tok)
        };
        assert(consumed ==> st.buf@ =~= Seq::<char>::empty());
        return Ok(());
    }
    if st.buf.len() > 0 && every_alphanumeric(&st.buf) {
        if tok.is_alphanumeric() {
            st.buf.push(tok);
        } else {
            let t = Token::Variable(string_of(&st.buf));
            push_token(&mut st.construct, t);
            st.buf = one(tok);
        }
        return Ok(());
    }
    if is_one(&st.buf, ',') {
        push_token(&mut st.construct, Token::Comma);
        st.buf = one(tok);
        return Ok(());
    }
    if is_one(&st.buf, ')') || is_one(&st.buf, '}') || is_one(&st.buf, ']') {
        return Err(LexError::MissingOpener(st.buf[0]));
    }
    st.buf.push(tok);
    Ok(())
}

fn finish(construct: &mut Vec<Token>)
    ensures
        tokens_model(final(construct)@) == lex_finish(tokens_model(old(construct)@)),
        tokens_sound(tokens_model(old(construct)@)) ==> tokens_sound(
            tokens_model(final(construct)@),
        ),
{
    let n = construct.len();
    match find_last_operator(construct) {
        Some(pos) => {
            let right: i32 = match &construct[pos] {
                Token::Operator(_, rank) => rank.1,
                _ => 0,
            };
            let given = n - pos - 1;
            if right > 0 && right as usize > given {
                push_placeholders(construct, right as usize - given);
            } else {
                assert(tokens_model(construct@) =~= tokens_model(construct@) + placeholders(
                    right - given,
                ));
            }
        },
        None => {},
    }
}

fn step(st: &mut LexState, tok: char, Ghost(bound): Ghost<nat>) -> (r: Result<(), LexError>)
    requires
        old(st).wf(),
        old(st).buf@.len() <= bound,
        is_bracket(tok) ==> old(st).group_count < usize::MAX,
    ensures
        match r {
            Ok(_) => lex_step(bound, old(st).model(), tok) == Ok::<LexModel, LexError>(
                final(st).model(),
            ),
            Err(e) => lex_step(bound, old(st).model(), tok) == Err::<LexModel, LexError>(e),
        },
        final(st).buf@.len() <= old(st).buf@.len() + 1,
        final(st).group_count <= old(st).group_count + 1,
        final(st).wf(),
    decreases bound, 0nat, 1nat,
{
    prepare(st, tok);
    if st.in_string {
        step_string(st, tok);
        Ok(())
    } else if st.in_group && st.group_char.is_some() {
        step_group(st, tok, Ghost(bound))
    } else {
        step_top(st, tok)
    }
}

/// Lexes the characters of a program.
pub fn lex_chars(s: &Vec<char>) -> (r: Result<Vec<Token>, LexError>)
    ensures
        match r {
            Ok(ts) => lex_spec(s@) == Ok::<Seq<TokenModel>, LexError>(tokens_model(ts@))
                && tokens_sound(tokens_model(ts@)),
            Err(e) => lex_spec(s@) == Err::<Seq<TokenModel>, LexError>(e),
        },
    decreases s@.len(), 2nat, 0nat,
{
    let mut st = LexState {
        construct: Vec::new(),
        buf: Vec::new(),
        in_string: false,
        in_group: false,
        group_count: 0,
        group_char: None,
    };
    assert(st.model() =~= lex_start()) by {
        assert(tokens_model(st.construct@) =~= Seq::<TokenModel>::empty());
    }
    let mut i: usize = 0;
    while i < s.len()
        invariant
            i <= s.len(),
            st.buf@.len() <= i,
            st.group_count <= i,
            st.wf(),
            lex_run(s@, i as nat, st.model()) == lex_spec(s@),
        decreases s.len() - i,
    {
        match step(&mut st, s[i], Ghost(s@.len())) {
            Ok(_) => {},
            Err(e) => {
                return Err(e);
            },
        }
        i += 1;
    }
    match step(&mut st, '\u{2192}', Ghost(s@.len())) {
        Ok(_) => {},
        Err(e) => {
            return Err(e);
        },
    }
    assert(lex_run(s@, (s@.len() + 1) as nat, st.model()) == Ok::<Seq<TokenModel>, LexError>(
        lex_finish(st.model().construct),
    ));
    finish(&mut st.construct);
    Ok(st.construct)
}

/// Lexes a program: its tokens, or the grouping character that has no
/// partner.
pub fn lex(prg: &str) -> (r: Result<Vec<Token>, LexError>)
    ensures
        match r {
            Ok(ts) => lex_spec(prg@) == Ok::<Seq<TokenModel>, LexError>(tokens_model(ts@))
                && tokens_sound(tokens_model(ts@)),
            Err(e) => lex_spec(prg@) == Err::<Seq<TokenModel>, LexError>(e),
        },
{
    let chars = chars_of(prg);
    lex_chars(&chars)
}

} // verus!
