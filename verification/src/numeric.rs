//! The operators on integers and on the halves and pieces of texts: primes,
//! factors, splitting, and the conversion between bases.

use crate::digits::{int_of_text, pad, pad_left, parse_int, radix_spec, radix_text, signed_decimal};
use crate::env::env_get;
use crate::eval::{
    array_from, collect, collect_seq, count_value, display, eval_node, literal_string, parse_node,
    print_value, split_on, split_text, text_of, to_u32,
};
use crate::fold::{trim_both, trim_chars};
use crate::lexer::end_mark;
use crate::machine::{cur_env, ErrorKind, fail, frames_kept, Machine, MachineModel};
use crate::num::{decimal, num_of_u64};
use crate::show::{node_text, show_node};
use crate::text::{chars_of, has_char, string_of, trim_white, trimmed};
use crate::tokens::{node_model, Node, NodeModel};
use crate::types::{dyn_model, Dynamic, dyns_model, push_value, Val, ValModel};
use crate::values::array_of;
use vstd::prelude::*;

verus! {

/// Whether a natural number is prime.
pub open spec fn is_prime_spec(n: nat) -> bool {
    n >= 2 && forall|d: nat| 2 <= d < n ==> #[trigger] (n % d) != 0
}

/// Tests whether a number is prime, by `primal::is_prime`, the
/// deterministic Miller-Rabin test.
#[verifier::external_body]
fn is_prime(n: u64) -> (r: bool)
    ensures
        r == is_prime_spec(n as nat),
{
    primal::is_prime(n)
}

/// The primes from `k` up to `n` as numbers, behind `acc`.
pub open spec fn primes_from(k: nat, n: nat, acc: Seq<ValModel>) -> Seq<ValModel>
    decreases n + 1 - k,
{
    if k > n {
        acc
    } else {
        primes_from(
            k + 1,
            n,
            if is_prime_spec(k) {
                acc.push(ValModel::Number(decimal(k)))
            } else {
                acc
            },
        )
    }
}

/// `#.`: the primes up to the operand.
pub open spec fn op_primes(d: nat, s: MachineModel, right: NodeModel) -> (ValModel, MachineModel)
    decreases d, 60nat, 0nat,
{
    let (c, s1) = count_value(d, s, right);
    (array_of(primes_from(0, c as nat, Seq::empty())), s1)
}

/// The divisors of `num` found so far, after the candidates from `i` on
/// have been tried. A divisor goes to the front part at `ind` and its
/// partner to the back part, so that the run stays in ascending order.
pub open spec fn factors_from(num: nat, i: nat, ind: nat, fac: Seq<nat>) -> Seq<nat>
    decreases num + 1 - i,
{
    if i == 0 || i > num || i * i > num || ind > fac.len() {
        fac
    } else if num % i == 0 {
        let f1 = fac.insert(ind as int, i);
        let f2 = if i != num / i {
            f1.insert(f1.len() - ind, num / i)
        } else {
            f1
        };
        factors_from(num, i + 1, ind + 1, f2)
    } else {
        factors_from(num, i + 1, ind, fac)
    }
}

/// A run with its first and last entry exchanged.
pub open spec fn swap_ends(f: Seq<nat>) -> Seq<nat> {
    if f.len() == 0 {
        f
    } else {
        f.update(0, f.last()).update(f.len() - 1, f[0])
    }
}

/// The numbers of a run of natural numbers.
pub open spec fn as_numbers(f: Seq<nat>) -> Seq<ValModel> {
    Seq::new(f.len(), |i: int| ValModel::Number(decimal(f[i])))
}

/// `*.`: the divisors of the operand in ascending order, with the first
/// and the last exchanged. Zero has none.
pub open spec fn op_factors(d: nat, s: MachineModel, right: NodeModel) -> (ValModel, MachineModel)
    decreases d, 60nat, 0nat,
{
    let (c, s1) = count_value(d, s, right);
    let f = factors_from(c as nat, 1, 0, Seq::empty());
    if f.len() == 0 {
        (ValModel::Empty, fail(s1, ErrorKind::EmptySequence, Seq::empty()))
    } else {
        (array_of(as_numbers(swap_ends(f))), s1)
    }
}

/// The number of bytes that a character takes in UTF-8.
pub open spec fn width(c: char) -> nat {
    if (c as u32) < 0x80 {
        1
    } else if (c as u32) < 0x800 {
        2
    } else if (c as u32) < 0x10000 {
        3
    } else {
        4
    }
}

/// The number of bytes that a text takes in UTF-8.
pub open spec fn byte_len(t: Seq<char>) -> nat
    decreases t.len(),
{
    if t.len() == 0 {
        0
    } else {
        byte_len(t.drop_last()) + width(t.last())
    }
}

/// The number of characters that take the first `mid` bytes of a text,
/// counted from `k` characters that take `sum` bytes; none if `mid` bytes
/// end inside a character.
pub open spec fn boundary(t: Seq<char>, mid: nat, k: int, sum: nat) -> Option<int>
    decreases t.len() - k,
{
    if sum == mid {
        Some(k)
    } else if sum > mid || k < 0 || k >= t.len() {
        None
    } else {
        boundary(t, mid, k + 1, sum + width(t[k]))
    }
}

/// `|:`: the first half of the operand's text and the second half turned
/// around. The halves are measured in bytes; the middle must not fall
/// inside a character.
pub open spec fn op_bifurcate(d: nat, s: MachineModel, right: NodeModel) -> (
    ValModel,
    MachineModel,
)
    decreases d, 60nat, 0nat,
{
    let (v, s1) = eval_node(d, s, right);
    let (t, s2) = literal_string(d, s1, v);
    match boundary(t, byte_len(t) / 2, 0, 0) {
        Some(k) => (
            array_of(seq![ValModel::String(t.take(k)), ValModel::String(t.skip(k).reverse())]),
            s2,
        ),
        None => (ValModel::Empty, fail(s2, ErrorKind::BadSplit, t)),
    }
}

/// Whether the pattern stands in the text at index `i`.
pub open spec fn occurs_at(t: Seq<char>, p: Seq<char>, i: int) -> bool {
    0 <= i && i + p.len() <= t.len() && t.subrange(i, i + p.len()) == p
}

/// The pieces of a text between the occurrences of a pattern that is not
/// empty, from index `i` on; `cur` is the piece under way and `acc` holds
/// the finished ones. Occurrences are taken from the left and do not
/// overlap.
pub open spec fn pieces_from(
    t: Seq<char>,
    p: Seq<char>,
    i: int,
    cur: Seq<char>,
    acc: Seq<Seq<char>>,
) -> Seq<Seq<char>>
    decreases t.len() - i,
{
    if i < 0 || i >= t.len() || p.len() == 0 {
        acc.push(cur)
    } else if occurs_at(t, p, i) {
        pieces_from(t, p, i + p.len(), Seq::empty(), acc.push(cur))
    } else {
        pieces_from(t, p, i + 1, cur.push(t[i]), acc)
    }
}

/// The pieces that a pattern cuts a text into. An empty pattern cuts
/// between all characters and at both ends: the pieces are an empty one,
/// each character, and an empty one.
pub open spec fn split_by(t: Seq<char>, p: Seq<char>) -> Seq<Seq<char>> {
    if p.len() == 0 {
        seq![Seq::<char>::empty()] + Seq::new(t.len(), |i: int| seq![t[i]]) + seq![
            Seq::<char>::empty(),
        ]
    } else {
        pieces_from(t, p, 0, Seq::empty(), Seq::empty())
    }
}

/// The texts of a run of strings.
pub open spec fn strings_model(v: Seq<String>) -> Seq<Seq<char>> {
    Seq::new(v.len(), |i: int| v[i]@)
}

fn push_text(out: &mut Vec<String>, t: &Vec<char>)
    ensures
        strings_model(final(out)@) == strings_model(old(out)@).push(t@),
{
    out.push(string_of(t));
    assert(strings_model(out@) =~= strings_model(old(out)@).push(t@));
}

fn found_at(t: &Vec<char>, p: &Vec<char>, i: usize) -> (r: bool)
    requires
        i <= t@.len(),
    ensures
        r == occurs_at(t@, p@, i as int),
{
    if p.len() > t.len() - i {
        return false;
    }
    let mut k: usize = 0;
    while k < p.len()
        invariant
            k <= p.len(),
            i + p.len() <= t.len(),
            forall|j: int| 0 <= j < k ==> t@[i + j] == p@[j],
        decreases p.len() - k,
    {
        if t[i + k] != p[k] {
            assert(t@.subrange(i as int, i + p.len())[k as int] != p@[k as int]);
            return false;
        }
        k += 1;
    }
    assert(t@.subrange(i as int, i + p.len()) =~= p@);
    true
}

/// Cuts a text at the occurrences of a pattern.
pub fn split_str(text: &str, pattern: &str) -> (r: Vec<String>)
    ensures
        strings_model(r@) == split_by(text@, pattern@),
{
    let t = chars_of(text);
    let p = chars_of(pattern);
    let mut out: Vec<String> = Vec::new();
    let none: Vec<char> = Vec::new();
    assert(strings_model(out@) =~= Seq::<Seq<char>>::empty());
    if p.len() == 0 {
        push_text(&mut out, &none);
        let mut i: usize = 0;
        while i < t.len()
            invariant
                i <= t.len(),
                none@ == Seq::<char>::empty(),
                strings_model(out@) =~= seq![Seq::<char>::empty()] + Seq::new(
                    i as nat,
                    |k: int| seq![t@[k]],
                ),
            decreases t.len() - i,
        {
            let mut one: Vec<char> = Vec::new();
            one.push(t[i]);
            assert(one@ =~= seq![t@[i as int]]);
            push_text(&mut out, &one);
            i += 1;
        }
        push_text(&mut out, &none);
        assert(strings_model(out@) =~= split_by(t@, p@));
        return out;
    }
    let mut cur: Vec<char> = Vec::new();
    let mut i: usize = 0;
    while i < t.len()
        invariant
            i <= t.len(),
            p.len() > 0,
            split_by(t@, p@) == pieces_from(t@, p@, i as int, cur@, strings_model(out@)),
        decreases t.len() - i,
    {
        if found_at(&t, &p, i) {
            push_text(&mut out, &cur);
            cur = Vec::new();
            i += p.len();
        } else {
            cur.push(t[i]);
            i += 1;
        }
    }
    push_text(&mut out, &cur);
    out
}

/// The string values of a run of texts.
pub open spec fn as_strings(parts: Seq<Seq<char>>) -> Seq<ValModel> {
    Seq::new(parts.len(), |i: int| ValModel::String(parts[i]))
}

/// `:!`: the pieces of the left operand's text between the occurrences of
/// the right operand's text.
pub open spec fn op_split(d: nat, s: MachineModel, left: NodeModel, right: NodeModel) -> (
    ValModel,
    MachineModel,
)
    decreases d, 60nat, 0nat,
{
    let (l, s1) = eval_node(d, s, left);
    let (t, s2) = literal_string(d, s1, l);
    let (r, s3) = eval_node(d, s2, right);
    let (p, s4) = literal_string(d, s3, r);
    (array_of(as_strings(split_by(t, p))), s4)
}

/// Evaluates the operator that [`op_primes`] describes.
pub fn do_primes(ctx: &mut Machine, depth: usize, right: &Node) -> (r: Dynamic)
    ensures
        (dyn_model(r), final(ctx).model()) == op_primes(
            depth as nat,
            old(ctx).model(),
            node_model(*right),
        ),
        final(ctx).fuel <= old(ctx).fuel,
        frames_kept(old(ctx).model(), final(ctx).model()),
    decreases depth, 60nat, 0nat,
{
    let c = to_u32(ctx, depth, right) as u64;
    let mut acc: Vec<Dynamic> = Vec::new();
    let mut k: u64 = 0;
    assert(dyns_model(acc@) =~= Seq::<ValModel>::empty());
    while k <= c
        invariant
            k <= c + 1,
            c <= u32::MAX,
            primes_from(0, c as nat, Seq::empty()) == primes_from(
                k as nat,
                c as nat,
                dyns_model(acc@),
            ),
        decreases c + 1 - k,
    {
        if is_prime(k) {
            push_value(&mut acc, Dynamic::number(num_of_u64(k)));
        }
        k += 1;
    }
    array_from(acc)
}

fn square_fits(i: u64, num: u64) -> (r: bool)
    requires
        i <= 0x1_0000_0000,
    ensures
        r == (i * i <= num),
{
    assert(i * i <= 0x1_0000_0000 * 0x1_0000_0000) by (nonlinear_arith)
        requires
            i <= 0x1_0000_0000,
    ;
    (i as u128) * (i as u128) <= num as u128
}

/// The divisors of a number in ascending order.
fn factors(num: u64) -> (r: Vec<u64>)
    requires
        num <= u32::MAX,
    ensures
        Seq::new(r@.len(), |i: int| r@[i] as nat) == factors_from(
            num as nat,
            1,
            0,
            Seq::empty(),
        ),
{
    let mut fac: Vec<u64> = Vec::new();
    let mut i: u64 = 1;
    let mut ind: usize = 0;
    let ghost goal = factors_from(num as nat, 1, 0, Seq::empty());
    assert(Seq::new(fac@.len(), |k: int| fac@[k] as nat) =~= Seq::<nat>::empty());
    while i <= num && square_fits(i, num)
        invariant
            1 <= i <= num + 1,
            num <= u32::MAX,
            ind <= fac@.len(),
            goal == factors_from(
                num as nat,
                i as nat,
                ind as nat,
                Seq::new(fac@.len(), |k: int| fac@[k] as nat),
            ),
        decreases num + 1 - i,
    {
        let ghost before = Seq::new(fac@.len(), |k: int| fac@[k] as nat);
        if num % i == 0 {
            fac.insert(ind, i);
            let ghost f1 = before.insert(ind as int, i as nat);
            assert(Seq::new(fac@.len(), |k: int| fac@[k] as nat) =~= f1);
            if i != num / i {
                let at = fac.len() - ind;
                fac.insert(at, num / i);
                assert(Seq::new(fac@.len(), |k: int| fac@[k] as nat) =~= f1.insert(
                    f1.len() - ind,
                    (num / i) as nat,
                ));
            }
            let size = fac.len();
            assert(ind < size);
            ind += 1;
        }
        i += 1;
    }
    fac
}

/// Evaluates the operator that [`op_factors`] describes.
pub fn do_factors(ctx: &mut Machine, depth: usize, right: &Node) -> (r: Dynamic)
    ensures
        (dyn_model(r), final(ctx).model()) == op_factors(
            depth as nat,
            old(ctx).model(),
            node_model(*right),
        ),
        final(ctx).fuel <= old(ctx).fuel,
        frames_kept(old(ctx).model(), final(ctx).model()),
    decreases depth, 60nat, 0nat,
{
    let c = to_u32(ctx, depth, right) as u64;
    let mut fac = factors(c);
    let n = fac.len();
    if n == 0 {
        ctx.fail(ErrorKind::EmptySequence, String::new());
        return Dynamic::empty();
    }
    let ghost f = Seq::new(fac@.len(), |i: int| fac@[i] as nat);
    let first = fac[0];
    let last = fac[n - 1];
    fac[0] = last;
    fac[n - 1] = first;
    assert(Seq::new(fac@.len(), |i: int| fac@[i] as nat) =~= swap_ends(f));
    let mut out: Vec<Dynamic> = Vec::new();
    let mut i: usize = 0;
    while i < n
        invariant
            i <= n,
            n == fac@.len(),
            dyns_model(out@) =~= as_numbers(Seq::new(fac@.len(), |k: int| fac@[k] as nat)).take(
                i as int,
            ),
        decreases n - i,
    {
        push_value(&mut out, Dynamic::number(num_of_u64(fac[i])));
        i += 1;
    }
    assert(as_numbers(Seq::new(fac@.len(), |k: int| fac@[k] as nat)).take(n as int)
        =~= as_numbers(swap_ends(f)));
    array_from(out)
}

fn char_width(c: char) -> (w: usize)
    ensures
        w == width(c),
        1 <= w <= 4,
{
    let u = c as u32;
    if u < 0x80 {
        1
    } else if u < 0x800 {
        2
    } else if u < 0x10000 {
        3
    } else {
        4
    }
}

fn text_bytes(t: &Vec<char>) -> (n: u128)
    ensures
        n == byte_len(t@),
{
    let mut n: u128 = 0;
    let mut i: usize = 0;
    assert(t@.take(0) =~= Seq::<char>::empty());
    while i < t.len()
        invariant
            i <= t.len(),
            n == byte_len(t@.take(i as int)),
            n <= 4 * i,
        decreases t.len() - i,
    {
        assert(t@.take(i + 1).drop_last() =~= t@.take(i as int));
        n = n + char_width(t[i]) as u128;
        i += 1;
    }
    assert(t@.take(t.len() as int) =~= t@);
    n
}

/// Evaluates the operator that [`op_bifurcate`] describes.
pub fn do_bifurcate(ctx: &mut Machine, depth: usize, right: &Node) -> (r: Dynamic)
    ensures
        (dyn_model(r), final(ctx).model()) == op_bifurcate(
            depth as nat,
            old(ctx).model(),
            node_model(*right),
        ),
        final(ctx).fuel <= old(ctx).fuel,
        frames_kept(old(ctx).model(), final(ctx).model()),
    decreases depth, 60nat, 0nat,
{
    let v = parse_node(ctx, depth, right);
    let text = text_of(ctx, depth, &v);
    let t = chars_of(text.as_str());
    let mid = text_bytes(&t) / 2;
    let mut k: usize = 0;
    let mut sum: u128 = 0;
    while sum < mid && k < t.len()
        invariant
            k <= t.len(),
            sum <= 4 * k,
            boundary(t@, mid as nat, 0, 0) == boundary(t@, mid as nat, k as int, sum as nat),
        decreases t.len() - k,
    {
        sum = sum + char_width(t[k]) as u128;
        k += 1;
    }
    if sum == mid {
        let mut a: Vec<char> = Vec::new();
        let mut i: usize = 0;
        while i < k
            invariant
                i <= k <= t.len(),
                a@ =~= t@.take(i as int),
            decreases k - i,
        {
            a.push(t[i]);
            i += 1;
        }
        let mut b: Vec<char> = Vec::new();
        let n = t.len();
        let mut j: usize = 0;
        while j < n - k
            invariant
                j <= n - k,
                k <= n,
                n == t@.len(),
                b@ =~= t@.skip(k as int).reverse().take(j as int),
            decreases n - k - j,
        {
            b.push(t[n - 1 - j]);
            j += 1;
        }
        assert(t@.skip(k as int).reverse().take((n - k) as int) =~= t@.skip(k as int).reverse());
        crate::seqops::pair_of(Dynamic::text(string_of(&a)), Dynamic::text(string_of(&b)))
    } else {
        ctx.fail(ErrorKind::BadSplit, text);
        Dynamic::empty()
    }
}

fn texts_to_values(parts: &Vec<String>) -> (r: Vec<Dynamic>)
    ensures
        dyns_model(r@) == as_strings(strings_model(parts@)),
{
    let mut out: Vec<Dynamic> = Vec::new();
    let mut i: usize = 0;
    while i < parts.len()
        invariant
            i <= parts.len(),
            dyns_model(out@) =~= as_strings(strings_model(parts@)).take(i as int),
        decreases parts.len() - i,
    {
        push_value(&mut out, Dynamic::text(parts[i].clone()));
        i += 1;
    }
    assert(as_strings(strings_model(parts@)).take(parts.len() as int) =~= as_strings(
        strings_model(parts@),
    ));
    out
}

/// Evaluates the operator that [`op_split`] describes.
pub fn do_split(ctx: &mut Machine, depth: usize, left: &Node, right: &Node) -> (r: Dynamic)
    ensures
        (dyn_model(r), final(ctx).model()) == op_split(
            depth as nat,
            old(ctx).model(),
            node_model(*left),
            node_model(*right),
        ),
        final(ctx).fuel <= old(ctx).fuel,
        frames_kept(old(ctx).model(), final(ctx).model()),
    decreases depth, 60nat, 0nat,
{
    let l = parse_node(ctx, depth, left);
    let t = text_of(ctx, depth, &l);
    let r = parse_node(ctx, depth, right);
    let p = text_of(ctx, depth, &r);
    array_from(texts_to_values(&split_str(t.as_str(), p.as_str())))
}

/// What `char::is_numeric` of the standard library answers.
pub uninterp spec fn numeric(c: char) -> bool;

/// `char::is_numeric` of the standard library depends on the character
/// alone.
pub assume_specification[ char::is_numeric ](c: char) -> (r: bool)
    ensures
        r == numeric(c),
;

/// The length of the longest text among the first `n`.
pub open spec fn longest(texts: Seq<Seq<char>>, n: int) -> nat
    decreases n,
{
    if n <= 0 || n > texts.len() {
        0
    } else {
        let w = longest(texts, n - 1);
        if texts[n - 1].len() > w {
            texts[n - 1].len()
        } else {
            w
        }
    }
}

/// The texts with zeros in front up to the length of the longest.
pub open spec fn padded_all(texts: Seq<Seq<char>>) -> Seq<Seq<char>> {
    Seq::new(texts.len(), |i: int| pad_left(texts[i], longest(texts, texts.len() as int)))
}

/// The texts of the values from index `i` on, each read as a decimal
/// integer and written in the base; behind `acc`.
pub open spec fn convert_all(
    d: nat,
    s: MachineModel,
    items: Seq<ValModel>,
    base: u8,
    i: int,
    acc: Seq<Seq<char>>,
) -> (Seq<Seq<char>>, MachineModel)
    decreases d, 57nat, items.len() - i,
{
    if i < 0 || i >= items.len() {
        (acc, s)
    } else {
        let (t, s1) = literal_string(d, s, items[i]);
        match int_of_text(t, 10) {
            Some(v) => convert_all(
                d,
                s1,
                items,
                base,
                i + 1,
                acc.push(radix_spec(v as i128, base)),
            ),
            None => (acc, fail(s1, ErrorKind::InvalidDigits, t)),
        }
    }
}

/// A value, or each entry of a sequence, written in a base from 2 to 36,
/// all with zeros in front up to the same length. Each is read as a decimal
/// integer first. There must be one entry at least.
pub open spec fn nbase_texts(d: nat, s: MachineModel, cur: ValModel, base: u8) -> (
    Seq<Seq<char>>,
    MachineModel,
)
    decreases d, 58nat, 0nat,
{
    let (items, s1) = match cur {
        ValModel::Array(q) => collect(d, s, *q, Seq::empty()),
        _ => (seq![cur], s),
    };
    let (texts, s2) = convert_all(d, s1, items, base, 0, Seq::empty());
    if texts.len() == 0 {
        (Seq::empty(), fail(s2, ErrorKind::EmptySequence, Seq::empty()))
    } else {
        (padded_all(texts), s2)
    }
}

/// The sequence of the texts that a value, or each entry of a sequence, is
/// written as in a base.
pub open spec fn nbase(d: nat, s: MachineModel, cur: ValModel, base: u8) -> (
    ValModel,
    MachineModel,
)
    decreases d, 59nat, 0nat,
{
    if base < 2 || base > 36 {
        (ValModel::Empty, fail(s, ErrorKind::UnrecognizedBase, Seq::empty()))
    } else {
        let (texts, s1) = nbase_texts(d, s, cur, base);
        (array_of(as_strings(texts)), s1)
    }
}

/// The text of a value read as an integer in a base and written in base
/// ten.
pub open spec fn from_radix(d: nat, s: MachineModel, cur: ValModel, radix: u8) -> (
    ValModel,
    MachineModel,
)
    decreases d, 58nat, 0nat,
{
    let (t, s1) = literal_string(d, s, cur);
    match int_of_text(t, radix as nat) {
        Some(v) => (ValModel::String(signed_decimal(v)), s1),
        None => (ValModel::Empty, fail(s1, ErrorKind::InvalidDigits, t)),
    }
}

/// The base that the digits collected so far name, if it is one from 2 to
/// 36.
pub open spec fn base_of(num: Seq<char>) -> Option<u8> {
    match int_of_text(num, 10) {
        Some(b) => if 2 <= b <= 36 {
            Some(b as u8)
        } else {
            None
        },
        None => None,
    }
}

/// What the end of a run of digits does: when digits are collected and the
/// next character is no numeral, the value is written in the base that the
/// digits name.
pub open spec fn flush(d: nat, s: MachineModel, cur: ValModel, num: Seq<char>, c: char) -> (
    ValModel,
    MachineModel,
    Seq<char>,
)
    decreases d, 60nat, 0nat,
{
    if num.len() > 0 && !numeric(c) {
        match base_of(num) {
            Some(b) => {
                let (v, s1) = nbase(d, s, cur, b);
                (v, s1, Seq::<char>::empty())
            },
            None => (cur, fail(s, ErrorKind::UnrecognizedBase, num), Seq::<char>::empty()),
        }
    } else {
        (cur, s, num)
    }
}

/// What one character of a conversion does. `b`, `o` and `h` write decimal
/// integers in base 2, 8 and 16; `B`, `O` and `H` read integers in those
/// bases; a digit is collected; the end mark does nothing.
pub open spec fn apply_char(d: nat, s: MachineModel, cur: ValModel, num: Seq<char>, c: char) -> (
    ValModel,
    MachineModel,
    Seq<char>,
)
    decreases d, 60nat, 0nat,
{
    if c == 'b' {
        let (v, s1) = nbase(d, s, cur, 2);
        (v, s1, num)
    } else if c == 'o' {
        let (v, s1) = nbase(d, s, cur, 8);
        (v, s1, num)
    } else if c == 'h' {
        let (v, s1) = nbase(d, s, cur, 16);
        (v, s1, num)
    } else if c == 'B' {
        let (v, s1) = from_radix(d, s, cur, 2);
        (v, s1, num)
    } else if c == 'O' {
        let (v, s1) = from_radix(d, s, cur, 8);
        (v, s1, num)
    } else if c == 'H' {
        let (v, s1) = from_radix(d, s, cur, 16);
        (v, s1, num)
    } else if '0' <= c && c <= '9' {
        (cur, s, num.push(c))
    } else if c == end_mark() {
        (cur, s, num)
    } else {
        (cur, fail(s, ErrorKind::UnrecognizedBase, seq![c]), num)
    }
}

/// The conversions from the `i`-th character on, the end mark behind the
/// last one.
pub open spec fn base_steps(
    d: nat,
    s: MachineModel,
    chars: Seq<char>,
    i: int,
    cur: ValModel,
    num: Seq<char>,
) -> (ValModel, MachineModel)
    decreases d, 61nat, chars.len() + 1 - i,
{
    if i < 0 || i > chars.len() {
        (cur, s)
    } else {
        let c = if i < chars.len() {
            chars[i]
        } else {
            end_mark()
        };
        let (cur1, s1, num1) = flush(d, s, cur, num, c);
        let (cur2, s2, num2) = apply_char(d, s1, cur1, num1, c);
        base_steps(d, s2, chars, i + 1, cur2, num2)
    }
}

/// The texts of a run of strings, one after the other.
pub open spec fn concat_strings(vals: Seq<ValModel>) -> Seq<char>
    decreases vals.len(),
{
    if vals.len() == 0 {
        Seq::empty()
    } else {
        concat_strings(vals.drop_last()) + (match vals.last() {
            ValModel::String(t) => t,
            _ => Seq::empty(),
        })
    }
}

/// The characters that say how to convert: the text of the right operand,
/// or, if that text is a name in the environment, what its value is printed
/// as; without the white space and the quotes at its ends.
pub open spec fn base_chars(d: nat, s: MachineModel, right: NodeModel) -> (Seq<char>, MachineModel)
    decreases d, 60nat, 0nat,
{
    let (text, s1) = node_text(s, right);
    let (ops, s2) = if env_get(cur_env(s1), text) is Some {
        let (v, s2) = eval_node(d, s1, right);
        display(d, s2, v)
    } else {
        (text, s1)
    };
    (trim_both(trimmed(ops), '"'), s2)
}

/// The value that is converted: the left operand as a text. If it prints on
/// several lines, it is taken line by line, or, where an integer is to be
/// read first, as the lines joined.
pub open spec fn base_start(d: nat, s: MachineModel, left: NodeModel, chars: Seq<char>) -> (
    ValModel,
    MachineModel,
)
    decreases d, 60nat, 0nat,
{
    let (cur0, s1) = eval_node(d, s, left);
    let (shown, s2) = display(d, s1, cur0);
    if shown.contains('\n') {
        let (again, s3) = display(d, s2, cur0);
        let lines = split_on(trimmed(again), '\n');
        if chars.len() > 0 && (chars[0] == 'H' || chars[0] == 'O' || chars[0] == 'B') {
            (ValModel::String(concat_strings(lines)), s3)
        } else {
            (array_of(lines), s3)
        }
    } else {
        let (t, s3) = literal_string(d, s2, cur0);
        (ValModel::String(t), s3)
    }
}

/// `;`: the left operand converted as the characters of the right operand
/// say.
pub open spec fn op_base(d: nat, s: MachineModel, left: NodeModel, right: NodeModel) -> (
    ValModel,
    MachineModel,
)
    decreases d, 62nat, 0nat,
{
    let (chars, s1) = base_chars(d, s, right);
    let (cur, s2) = base_start(d, s1, left, chars);
    base_steps(d, s2, chars, 0, cur, Seq::empty())
}

fn text_lengths(texts: &Vec<Vec<char>>) -> (w: usize)
    ensures
        w == longest(crate::listops::texts_model(texts@), texts@.len() as int),
{
    let mut w: usize = 0;
    let mut i: usize = 0;
    while i < texts.len()
        invariant
            i <= texts.len(),
            w == longest(crate::listops::texts_model(texts@), i as int),
        decreases texts.len() - i,
    {
        if texts[i].len() > w {
            w = texts[i].len();
        }
        i += 1;
    }
    w
}

/// Writes a value, or each entry of a sequence, in a base from 2 to 36,
/// all with zeros in front up to the same length.
pub fn nbase_padded(ctx: &mut Machine, depth: usize, orig: &Dynamic, base: u8) -> (r: Vec<String>)
    requires
        2 <= base <= 36,
    ensures
        (strings_model(r@), final(ctx).model()) == nbase_texts(
            depth as nat,
            old(ctx).model(),
            dyn_model(*orig),
            base,
        ),
        final(ctx).fuel <= old(ctx).fuel,
        frames_kept(old(ctx).model(), final(ctx).model()),
    decreases depth, 58nat, 0nat,
{
    let items = match &orig.val {
        Val::Array(q) => collect_seq(ctx, depth, (**q).clone()),
        _ => {
            let mut v: Vec<Dynamic> = Vec::new();
            push_value(&mut v, orig.clone());
            assert(dyns_model(v@) =~= seq![dyn_model(*orig)]);
            v
        },
    };
    let mut texts: Vec<Vec<char>> = Vec::new();
    let ghost begin = ctx.model();
    assert(crate::listops::texts_model(texts@) =~= Seq::<Seq<char>>::empty());
    let mut i: usize = 0;
    let mut failed = false;
    while i < items.len() && !failed
        invariant
            i <= items.len(),
            2 <= base <= 36,
            !failed ==> convert_all(
                depth as nat,
                begin,
                dyns_model(items@),
                base,
                0,
                Seq::empty(),
            ) == convert_all(
                depth as nat,
                ctx.model(),
                dyns_model(items@),
                base,
                i as int,
                crate::listops::texts_model(texts@),
            ),
            failed ==> convert_all(
                depth as nat,
                begin,
                dyns_model(items@),
                base,
                0,
                Seq::empty(),
            ) == (crate::listops::texts_model(texts@), ctx.model()),
            ctx.fuel <= old(ctx).fuel,
            frames_kept(old(ctx).model(), ctx.model()),
        decreases items.len() - i + if failed { 0int } else { 1int },
    {
        let t = text_of(ctx, depth, &items[i]);
        match parse_int(&chars_of(t.as_str()), 10) {
            Some(v) => {
                let ghost before = crate::listops::texts_model(texts@);
                let written = chars_of(radix_text(v, base).as_str());
                texts.push(written);
                assert(crate::listops::texts_model(texts@) =~= before.push(written@));
                i += 1;
            },
            None => {
                ctx.fail(ErrorKind::InvalidDigits, t);
                failed = true;
            },
        }
    }
    let mut out: Vec<String> = Vec::new();
    if texts.len() == 0 {
        ctx.fail(ErrorKind::EmptySequence, String::new());
        assert(strings_model(out@) =~= Seq::<Seq<char>>::empty());
        return out;
    }
    let w = text_lengths(&texts);
    let mut k: usize = 0;
    while k < texts.len()
        invariant
            k <= texts.len(),
            w == longest(crate::listops::texts_model(texts@), texts@.len() as int),
            strings_model(out@) =~= padded_all(crate::listops::texts_model(texts@)).take(k as int),
        decreases texts.len() - k,
    {
        let p = string_of(&pad(&texts[k], w));
        let ghost before = strings_model(out@);
        assert(crate::listops::texts_model(texts@)[k as int] == texts@[k as int]@);
        out.push(p);
        assert(strings_model(out@) =~= before.push(p@));
        k += 1;
    }
    assert(padded_all(crate::listops::texts_model(texts@)).take(texts.len() as int)
        =~= padded_all(crate::listops::texts_model(texts@)));
    out
}

fn write_in_base(ctx: &mut Machine, depth: usize, cur: &Dynamic, base: u8) -> (r: Dynamic)
    ensures
        (dyn_model(r), final(ctx).model()) == nbase(
            depth as nat,
            old(ctx).model(),
            dyn_model(*cur),
            base,
        ),
        final(ctx).fuel <= old(ctx).fuel,
        frames_kept(old(ctx).model(), final(ctx).model()),
    decreases depth, 59nat, 0nat,
{
    if base < 2 || base > 36 {
        ctx.fail(ErrorKind::UnrecognizedBase, String::new());
        Dynamic::empty()
    } else {
        let texts = nbase_padded(ctx, depth, cur, base);
        array_from(texts_to_values(&texts))
    }
}

fn read_in_base(ctx: &mut Machine, depth: usize, cur: &Dynamic, radix: u8) -> (r: Dynamic)
    requires
        2 <= radix <= 36,
    ensures
        (dyn_model(r), final(ctx).model()) == from_radix(
            depth as nat,
            old(ctx).model(),
            dyn_model(*cur),
            radix,
        ),
        final(ctx).fuel <= old(ctx).fuel,
        frames_kept(old(ctx).model(), final(ctx).model()),
    decreases depth, 58nat, 0nat,
{
    let t = text_of(ctx, depth, cur);
    match parse_int(&chars_of(t.as_str()), radix) {
        Some(v) => Dynamic::text(radix_text(v, 10)),
        None => {
            ctx.fail(ErrorKind::InvalidDigits, t);
            Dynamic::empty()
        },
    }
}

fn named_base(num: &Vec<char>) -> (r: Option<u8>)
    ensures
        r == base_of(num@),
{
    match parse_int(num, 10) {
        Some(b) => if 2 <= b && b <= 36 {
            Some(b as u8)
        } else {
            None
        },
        None => None,
    }
}

fn flush_digits(ctx: &mut Machine, depth: usize, cur: Dynamic, num: &mut Vec<char>, c: char) -> (r:
    Dynamic)
    ensures
        (dyn_model(r), final(ctx).model(), final(num)@) == flush(
            depth as nat,
            old(ctx).model(),
            dyn_model(cur),
            old(num)@,
            c,
        ),
        final(ctx).fuel <= old(ctx).fuel,
        frames_kept(old(ctx).model(), final(ctx).model()),
    decreases depth, 60nat, 0nat,
{
    if num.len() > 0 && !c.is_numeric() {
        let named = named_base(num);
        let digits = string_of(num);
        num.clear();
        match named {
            Some(b) => write_in_base(ctx, depth, &cur, b),
            None => {
                ctx.fail(ErrorKind::UnrecognizedBase, digits);
                cur
            },
        }
    } else {
        cur
    }
}

fn convert_char(ctx: &mut Machine, depth: usize, cur: Dynamic, num: &mut Vec<char>, c: char) -> (r:
    Dynamic)
    ensures
        (dyn_model(r), final(ctx).model(), final(num)@) == apply_char(
            depth as nat,
            old(ctx).model(),
            dyn_model(cur),
            old(num)@,
            c,
        ),
        final(ctx).fuel <= old(ctx).fuel,
        frames_kept(old(ctx).model(), final(ctx).model()),
    decreases depth, 60nat, 0nat,
{
    if c == 'b' {
        write_in_base(ctx, depth, &cur, 2)
    } else if c == 'o' {
        write_in_base(ctx, depth, &cur, 8)
    } else if c == 'h' {
        write_in_base(ctx, depth, &cur, 16)
    } else if c == 'B' {
        read_in_base(ctx, depth, &cur, 2)
    } else if c == 'O' {
        read_in_base(ctx, depth, &cur, 8)
    } else if c == 'H' {
        read_in_base(ctx, depth, &cur, 16)
    } else if '0' <= c && c <= '9' {
        num.push(c);
        cur
    } else if c == '\u{2192}' {
        cur
    } else {
        let mut t: Vec<char> = Vec::new();
        t.push(c);
        assert(t@ =~= seq![c]);
        ctx.fail(ErrorKind::UnrecognizedBase, string_of(&t));
        cur
    }
}

fn concat_values(vals: &Vec<Dynamic>) -> (r: Vec<char>)
    ensures
        r@ == concat_strings(dyns_model(vals@)),
{
    let mut out: Vec<char> = Vec::new();
    let mut i: usize = 0;
    let ghost all = dyns_model(vals@);
    assert(all.take(0) =~= Seq::<ValModel>::empty());
    while i < vals.len()
        invariant
            i <= vals.len(),
            all == dyns_model(vals@),
            out@ == concat_strings(all.take(i as int)),
        decreases vals.len() - i,
    {
        assert(all.take(i + 1).drop_last() =~= all.take(i as int));
        assert(all.take(i + 1).last() == dyn_model(vals@[i as int]));
        match &vals[i].val {
            Val::String(t) => {
                let more = chars_of(t.as_str());
                let ghost before = out@;
                let mut k: usize = 0;
                while k < more.len()
                    invariant
                        k <= more.len(),
                        out@ =~= before + more@.take(k as int),
                    decreases more.len() - k,
                {
                    out.push(more[k]);
                    k += 1;
                }
                assert(more@.take(more.len() as int) =~= more@);
            },
            _ => {
                assert(out@ + Seq::<char>::empty() =~= out@);
            },
        }
        i += 1;
    }
    assert(all.take(vals.len() as int) =~= all);
    out
}

fn conversion_chars(ctx: &mut Machine, depth: usize, right: &Node) -> (r: Vec<char>)
    ensures
        (r@, final(ctx).model()) == base_chars(depth as nat, old(ctx).model(), node_model(*right)),
        final(ctx).fuel <= old(ctx).fuel,
        frames_kept(old(ctx).model(), final(ctx).model()),
    decreases depth, 60nat, 0nat,
{
    let text = string_of(&show_node(ctx, right));
    let ops = if ctx.lookup(text.as_str()).is_some() {
        let v = parse_node(ctx, depth, right);
        string_of(&print_value(ctx, depth, &v))
    } else {
        text
    };
    trim_chars(&trim_white(&chars_of(ops.as_str())), '"')
}

fn conversion_start(ctx: &mut Machine, depth: usize, left: &Node, chars: &Vec<char>) -> (r: Dynamic)
    ensures
        (dyn_model(r), final(ctx).model()) == base_start(
            depth as nat,
            old(ctx).model(),
            node_model(*left),
            chars@,
        ),
        final(ctx).fuel <= old(ctx).fuel,
        frames_kept(old(ctx).model(), final(ctx).model()),
    decreases depth, 60nat, 0nat,
{
    let cur0 = parse_node(ctx, depth, left);
    let shown = print_value(ctx, depth, &cur0);
    if has_char(&shown, '\n') {
        let again = string_of(&print_value(ctx, depth, &cur0));
        let lines = split_text(&trim_white(&chars_of(again.as_str())), '\n');
        if chars.len() > 0 && (chars[0] == 'H' || chars[0] == 'O' || chars[0] == 'B') {
            Dynamic::text(string_of(&concat_values(&lines)))
        } else {
            array_from(lines)
        }
    } else {
        Dynamic::text(text_of(ctx, depth, &cur0))
    }
}

/// Evaluates the operator that [`op_base`] describes.
pub fn do_base(ctx: &mut Machine, depth: usize, left: &Node, right: &Node) -> (r: Dynamic)
    ensures
        (dyn_model(r), final(ctx).model()) == op_base(
            depth as nat,
            old(ctx).model(),
            node_model(*left),
            node_model(*right),
        ),
        final(ctx).fuel <= old(ctx).fuel,
        frames_kept(old(ctx).model(), final(ctx).model()),
    decreases depth, 62nat, 0nat,
{
    let chars = conversion_chars(ctx, depth, right);
    let cur1 = conversion_start(ctx, depth, left, &chars);
    let ghost begin = ctx.model();
    let mut cur = cur1;
    let mut num: Vec<char> = Vec::new();
    let mut i: usize = 0;
    while i < chars.len()
        invariant
            i <= chars.len(),
            base_steps(depth as nat, begin, chars@, 0, dyn_model(cur1), Seq::empty())
                == base_steps(depth as nat, ctx.model(), chars@, i as int, dyn_model(cur), num@),
            ctx.fuel <= old(ctx).fuel,
            frames_kept(old(ctx).model(), ctx.model()),
        decreases chars.len() - i,
    {
        let c = chars[i];
        cur = flush_digits(ctx, depth, cur, &mut num, c);
        cur = convert_char(ctx, depth, cur, &mut num, c);
        i += 1;
    }
    cur = flush_digits(ctx, depth, cur, &mut num, '\u{2192}');
    cur = convert_char(ctx, depth, cur, &mut num, '\u{2192}');
    assert(base_steps(
        depth as nat,
        ctx.model(),
        chars@,
        (chars@.len() + 1) as int,
        dyn_model(cur),
        num@,
    ) == (dyn_model(cur), ctx.model()));
    cur
}

} // verus!
