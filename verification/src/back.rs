//! The walk through a sequence from the back.

use crate::eval::{collect, seq_next, seq_step};
use crate::laws::{lemma_next_is_cached, lemma_next_none, walk_ok};
use crate::machine::{ErrorKind, fail, frames_kept, Machine, MachineModel};
use crate::types::{
    dyn_model, Dynamic, dyns_model, lemma_seq_model, opt_model, push_value, seq_model, Sequence,
    SequenceModel, ValModel,
};
use vstd::prelude::*;

verus! {

/// The sequence and the state after a walk from the front to the end.
pub open spec fn drain(d: nat, s: MachineModel, q: SequenceModel) -> (
    SequenceModel,
    MachineModel,
)
    decreases d, 32nat, s.fuel,
{
    let (x, q1, s1) = seq_next(d, s, q);
    match x {
        None => (q1, s1),
        Some(_) => if s1.fuel < s.fuel {
            drain(d, s1, q1)
        } else {
            (q1, s1)
        },
    }
}

/// How many entries a walk from the back has still to hand out: what is
/// left from earlier steps, or, at the first step, as many as the walk from
/// the front has handed out.
pub open spec fn back_start(q: SequenceModel) -> usize {
    match q.back {
        Some(b) => b,
        None => q.index,
    }
}

/// The next entry of a walk through a sequence from the back, the sequence
/// after it, and the state. The sequence must be finite. The walk from the
/// front is first taken to the end, so that all entries are computed; then
/// the computed entries are handed out from the last one to the first.
pub open spec fn seq_back(d: nat, s: MachineModel, q: SequenceModel) -> (
    Option<ValModel>,
    SequenceModel,
    MachineModel,
)
    decreases d, 33nat, 0nat,
{
    if s.stopped is Some {
        (None, q, s)
    } else if q.length is None {
        (None, q, fail(s, ErrorKind::InfiniteSequence, Seq::empty()))
    } else {
        let (q1, s1) = drain(d, s, q);
        let b = back_start(q1);
        if s1.stopped is Some {
            (None, q1, s1)
        } else if b == 0 || b > q1.cstr.len() {
            (None, SequenceModel { back: Some(b), ..q1 }, s1)
        } else {
            (
                Some(q1.cstr[b - 1]),
                SequenceModel { back: Some((b - 1) as usize), ..q1 },
                s1,
            )
        }
    }
}

/// A bound on the steps that a walk from the back can still take.
pub open spec fn back_measure(q: SequenceModel) -> nat {
    match q.back {
        Some(b) => b as nat,
        None => usize::MAX as nat + 1,
    }
}

/// The entries that a walk through a sequence from the back yields, behind
/// `acc`.
pub open spec fn collect_back(d: nat, s: MachineModel, q: SequenceModel, acc: Seq<ValModel>) -> (
    Seq<ValModel>,
    MachineModel,
)
    decreases d, 34nat, back_measure(q),
{
    let (x, q1, s1) = seq_back(d, s, q);
    match x {
        None => (acc, s1),
        Some(e) => if back_measure(q1) < back_measure(q) {
            collect_back(d, s1, q1, acc.push(e))
        } else {
            (acc, s1)
        },
    }
}

/// Takes the walk from the front to the end.
fn drain_seq(ctx: &mut Machine, depth: usize, q: &mut Sequence)
    ensures
        (seq_model(*final(q)), final(ctx).model()) == drain(
            depth as nat,
            old(ctx).model(),
            seq_model(*old(q)),
        ),
        final(ctx).fuel <= old(ctx).fuel,
        frames_kept(old(ctx).model(), final(ctx).model()),
        seq_model(*final(q)).back == seq_model(*old(q)).back,
        seq_model(*final(q)).length == seq_model(*old(q)).length,
        final(ctx).stopped is None ==> seq_model(*final(q)).length == Some(
            seq_model(*final(q)).index,
        ),
        walk_ok(seq_model(*old(q))) && final(ctx).stopped is None ==> seq_model(*old(q)).index
            <= seq_model(*final(q)).index <= seq_model(*final(q)).cstr.len() && collect(
            depth as nat,
            old(ctx).model(),
            seq_model(*old(q)),
            Seq::empty(),
        ) == (
            seq_model(*final(q)).cstr.subrange(
                seq_model(*old(q)).index as int,
                seq_model(*final(q)).index as int,
            ),
            final(ctx).model(),
        ),
    decreases depth, 32nat, 0nat,
{
    let ghost q0 = seq_model(*q);
    let ghost s0 = ctx.model();
    proof {
        if walk_ok(q0) {
            assert(q0.cstr.subrange(q0.index as int, q0.index as int) =~= Seq::<
                ValModel,
            >::empty());
        }
    }
    loop
        invariant
            drain(depth as nat, s0, q0) == drain(depth as nat, ctx.model(), seq_model(*q)),
            ctx.fuel <= old(ctx).fuel,
            frames_kept(old(ctx).model(), ctx.model()),
            q0 == seq_model(*old(q)),
            s0 == old(ctx).model(),
            seq_model(*q).back == q0.back,
            seq_model(*q).length == q0.length,
            walk_ok(q0) ==> walk_ok(seq_model(*q)) && q0.index <= seq_model(*q).index && collect(
                depth as nat,
                s0,
                q0,
                Seq::empty(),
            ) == collect(
                depth as nat,
                ctx.model(),
                seq_model(*q),
                seq_model(*q).cstr.subrange(q0.index as int, seq_model(*q).index as int),
            ),
        decreases ctx.fuel,
    {
        let ghost qb = seq_model(*q);
        let ghost sb = ctx.model();
        proof {
            lemma_next_none(depth as nat, sb, qb);
            if walk_ok(qb) {
                lemma_next_is_cached(depth as nat, sb, qb);
            }
        }
        match seq_step(ctx, depth, q) {
            None => {
                return ;
            },
            Some(e) => {
                proof {
                    if walk_ok(q0) {
                        let qa = seq_model(*q);
                        assert(qa.cstr.subrange(q0.index as int, qa.index as int)
                            =~= qb.cstr.subrange(q0.index as int, qb.index as int).push(
                            dyn_model(e),
                        )) by {
                            assert forall|i: int| q0.index <= i < qb.index implies #[trigger] qa.cstr[i]
                                == qb.cstr[i] by {
                                assert(qa.cstr.take(qb.cstr.len() as int)[i] == qb.cstr[i]);
                            }
                        }
                    }
                }
            },
        }
    }
}

/// The next entry of a walk through a sequence from the back.
pub fn seq_step_back(ctx: &mut Machine, depth: usize, q: &mut Sequence) -> (r: Option<Dynamic>)
    ensures
        (opt_model(r), seq_model(*final(q)), final(ctx).model()) == seq_back(
            depth as nat,
            old(ctx).model(),
            seq_model(*old(q)),
        ),
        final(ctx).fuel <= old(ctx).fuel,
        frames_kept(old(ctx).model(), final(ctx).model()),
    decreases depth, 33nat, 0nat,
{
    if ctx.is_stopped() {
        return None;
    }
    if q.length.is_none() {
        ctx.fail(ErrorKind::InfiniteSequence, String::new());
        return None;
    }
    drain_seq(ctx, depth, q);
    if ctx.is_stopped() {
        return None;
    }
    let b = match q.back {
        Some(b) => b,
        None => q.index,
    };
    proof {
        lemma_seq_model(*q);
    }
    if b == 0 || b > q.cstr.len() {
        q.back = Some(b);
        proof {
            lemma_seq_model(*q);
        }
        None
    } else {
        let v = q.cstr[b - 1].clone();
        q.back = Some(b - 1);
        proof {
            lemma_seq_model(*q);
        }
        Some(v)
    }
}

/// The entries of the first `b` computed ones, from the last to the first:
/// what a walk from the back that has `b` entries to hand out yields.
proof fn lemma_back_run(
    d: nat,
    s: MachineModel,
    q: SequenceModel,
    b: usize,
    acc: Seq<ValModel>,
)
    requires
        s.stopped is None,
        q.length == Some(q.index),
        q.back == Some(b),
        b <= q.cstr.len(),
    ensures
        collect_back(d, s, q, acc) == (acc + q.cstr.take(b as int).reverse(), s),
    decreases b,
{
    lemma_next_none(d, s, q);
    assert(drain(d, s, q) == (q, s));
    if b == 0 {
        assert(seq_back(d, s, q) == (None::<ValModel>, q, s));
        assert(collect_back(d, s, q, acc) == (acc, s));
        assert(acc + q.cstr.take(0).reverse() =~= acc);
    } else {
        let q1 = SequenceModel { back: Some((b - 1) as usize), ..q };
        assert(seq_back(d, s, q) == (Some(q.cstr[b - 1]), q1, s));
        assert(back_measure(q1) < back_measure(q));
        assert(collect_back(d, s, q, acc) == collect_back(d, s, q1, acc.push(q.cstr[b - 1])));
        lemma_back_run(d, s, q1, (b - 1) as usize, acc.push(q.cstr[b - 1]));
        assert(acc.push(q.cstr[b - 1]) + q.cstr.take(b - 1).reverse() =~= acc + q.cstr.take(
            b as int,
        ).reverse());
    }
}

/// What a walk from the back yields in all, once the walk from the front
/// has been taken to the end: the computed entries that it has to hand
/// out, from the last to the first.
proof fn lemma_back_after_drain(
    d: nat,
    s0: MachineModel,
    q0: SequenceModel,
    qd: SequenceModel,
    sd: MachineModel,
)
    requires
        s0.stopped is None,
        q0.length is Some,
        drain(d, s0, q0) == (qd, sd),
        sd.stopped is None,
        qd.length == Some(qd.index),
        qd.back == q0.back,
    ensures
        collect_back(d, s0, q0, Seq::empty()) == (
            if back_start(qd) > qd.cstr.len() {
                Seq::empty()
            } else {
                qd.cstr.take(back_start(qd) as int).reverse()
            },
            sd,
        ),
{
    let b = back_start(qd);
    if b == 0 || b > qd.cstr.len() {
        assert(seq_back(d, s0, q0) == (
            None::<ValModel>,
            SequenceModel { back: Some(b), ..qd },
            sd,
        ));
        assert(collect_back(d, s0, q0, Seq::empty()) == (Seq::<ValModel>::empty(), sd));
        assert(qd.cstr.take(0).reverse() =~= Seq::<ValModel>::empty());
    } else {
        let q1 = SequenceModel { back: Some((b - 1) as usize), ..qd };
        assert(seq_back(d, s0, q0) == (Some(qd.cstr[b - 1]), q1, sd));
        assert(back_measure(q1) < back_measure(q0));
        assert(collect_back(d, s0, q0, Seq::empty()) == collect_back(
            d,
            sd,
            q1,
            Seq::empty().push(qd.cstr[b - 1]),
        ));
        lemma_back_run(d, sd, q1, (b - 1) as usize, Seq::empty().push(qd.cstr[b - 1]));
        assert(Seq::empty().push(qd.cstr[b - 1]) + qd.cstr.take(b - 1).reverse() =~= qd.cstr.take(
            b as int,
        ).reverse());
    }
}

/// The entries of a finite sequence from the last to the first, by a walk
/// from the back. For a sequence at the start of its walk they are the
/// entries that the walk from the front yields, in the opposite order.
pub fn collect_back_seq(ctx: &mut Machine, depth: usize, seq: Sequence) -> (r: Vec<Dynamic>)
    ensures
        (dyns_model(r@), final(ctx).model()) == collect_back(
            depth as nat,
            old(ctx).model(),
            seq_model(seq),
            Seq::empty(),
        ),
        final(ctx).fuel <= old(ctx).fuel,
        frames_kept(old(ctx).model(), final(ctx).model()),
        seq_model(seq).index == 0 && seq_model(seq).back is None && final(ctx).stopped is None
            ==> (dyns_model(r@), final(ctx).model()) == ({
            let (items, s1) = collect(
                depth as nat,
                old(ctx).model(),
                seq_model(seq),
                Seq::empty(),
            );
            (items.reverse(), s1)
        }),
    decreases depth, 34nat, 0nat,
{
    let mut q = seq;
    let mut out: Vec<Dynamic> = Vec::new();
    assert(dyns_model(out@) =~= Seq::<ValModel>::empty());
    let ghost q0 = seq_model(q);
    let ghost s0 = ctx.model();
    if ctx.is_stopped() {
        assert(seq_back(depth as nat, s0, q0) == (None::<ValModel>, q0, s0));
        return out;
    }
    if q.length.is_none() {
        ctx.fail(ErrorKind::InfiniteSequence, String::new());
        assert(seq_back(depth as nat, s0, q0) == (None::<ValModel>, q0, ctx.model()));
        return out;
    }
    drain_seq(ctx, depth, &mut q);
    if ctx.is_stopped() {
        assert(seq_back(depth as nat, s0, q0) == (None::<ValModel>, seq_model(q), ctx.model()));
        return out;
    }
    let start = match q.back {
        Some(b) => b,
        None => q.index,
    };
    proof {
        lemma_seq_model(q);
        lemma_back_after_drain(depth as nat, s0, q0, seq_model(q), ctx.model());
    }
    if start > q.cstr.len() {
        return out;
    }
    let ghost qd = seq_model(q);
    proof {
        if q0.index == 0 && q0.back is None {
            assert(qd.cstr.subrange(0, qd.index as int) =~= qd.cstr.take(start as int));
        }
    }
    let mut k: usize = start;
    while k > 0
        invariant
            k <= start <= q.cstr@.len(),
            dyns_model(q.cstr@) == qd.cstr,
            dyns_model(out@) =~= qd.cstr.take(start as int).reverse().take(start - k),
        decreases k,
    {
        push_value(&mut out, q.cstr[k - 1].clone());
        k -= 1;
    }
    assert(qd.cstr.take(start as int).reverse().take(start as int) =~= qd.cstr.take(
        start as int,
    ).reverse());
    out
}

} // verus!
