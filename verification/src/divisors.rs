//! What the search for the divisors of a number finds.

use crate::numeric::factors_from;
use vstd::prelude::*;

verus! {

/// The divisors of `num` below `i` whose square is at most `num`, in
/// ascending order.
pub open spec fn small_divisors(num: nat, i: nat) -> Seq<nat>
    decreases i,
{
    if i <= 1 {
        Seq::empty()
    } else {
        let d = (i - 1) as nat;
        let rest = small_divisors(num, d);
        if d * d <= num && num % d == 0 {
            rest.push(d)
        } else {
            rest
        }
    }
}

/// The partners `num / d` of the divisors `d` of `num` below `i` whose
/// square is less than `num`, in ascending order.
pub open spec fn large_divisors(num: nat, i: nat) -> Seq<nat>
    decreases i,
{
    if i <= 1 {
        Seq::empty()
    } else {
        let d = (i - 1) as nat;
        let rest = large_divisors(num, d);
        if d * d < num && num % d == 0 {
            seq![num / d] + rest
        } else {
            rest
        }
    }
}

/// While the squares of the candidates are at most `num`, there are as many
/// partners as small divisors.
proof fn lemma_same_count(num: nat, i: nat)
    requires
        i >= 1,
        (i - 1) * (i - 1) < num || i == 1,
    ensures
        small_divisors(num, i).len() == large_divisors(num, i).len(),
    decreases i,
{
    if i > 1 {
        let d = (i - 1) as nat;
        if d > 1 {
            assert((d - 1) * (d - 1) < num) by (nonlinear_arith)
                requires
                    d * d < num,
                    d > 1,
            ;
        }
        lemma_same_count(num, d);
    }
}

/// The search from the candidate `i` on, started with the small divisors
/// below `i` and their partners, finds what the search from 1 on finds.
proof fn lemma_search(num: nat, i: nat)
    requires
        i >= 1,
        (i - 1) * (i - 1) < num || i == 1,
    ensures
        factors_from(num, 1, 0, Seq::empty()) == factors_from(
            num,
            i,
            small_divisors(num, i).len(),
            small_divisors(num, i) + large_divisors(num, i),
        ),
    decreases i,
{
    if i == 1 {
        assert(small_divisors(num, 1) + large_divisors(num, 1) =~= Seq::<nat>::empty());
    } else {
        let d = (i - 1) as nat;
        if d > 1 {
            assert((d - 1) * (d - 1) < num) by (nonlinear_arith)
                requires
                    d * d < num,
                    d > 1,
            ;
        }
        lemma_search(num, d);
        lemma_same_count(num, d);
        let small = small_divisors(num, d);
        let large = large_divisors(num, d);
        let fac = small + large;
        let ind = small.len();
        assert(d <= num) by (nonlinear_arith)
            requires
                d * d < num,
                d >= 1,
        ;
        if num % d == 0 {
            let f1 = fac.insert(ind as int, d);
            assert(f1 =~= small.push(d) + large);
            assert(d != num / d) by (nonlinear_arith)
                requires
                    d * d < num,
                    num % d == 0,
                    d >= 1,
            ;
            let f2 = f1.insert(f1.len() - ind, num / d);
            assert(f2 =~= small.push(d) + (seq![num / d] + large));
        }
    }
}

/// The search for the divisors of a number finds its small divisors in
/// ascending order and then their partners in ascending order: with `r` the
/// first number whose square is more than `num`, what is found is the small
/// divisors below `r` and the partners of those whose square is less than
/// `num`.
pub proof fn lemma_factors(num: nat, r: nat)
    requires
        r >= 1,
        r * r > num,
        (r - 1) * (r - 1) <= num,
    ensures
        factors_from(num, 1, 0, Seq::empty()) == small_divisors(num, r) + large_divisors(num, r),
{
    if r == 1 {
        assert(num == 0) by (nonlinear_arith)
            requires
                r * r > num,
                r == 1,
        ;
        assert(small_divisors(num, 1) + large_divisors(num, 1) =~= Seq::<nat>::empty());
    } else {
        let d = (r - 1) as nat;
        if d * d < num {
            lemma_search(num, r);
            lemma_same_count(num, r);
        } else {
            // The last candidate is the root of `num`: it has no partner
            // but itself.
            if d > 1 {
                assert((d - 1) * (d - 1) < num) by (nonlinear_arith)
                    requires
                        d * d == num,
                        d > 1,
                ;
            }
            lemma_search(num, d);
            lemma_same_count(num, d);
            let small = small_divisors(num, d);
            let large = large_divisors(num, d);
            let fac = small + large;
            let ind = small.len();
            assert(d <= num) by (nonlinear_arith)
                requires
                    d * d == num,
                    d >= 1,
            ;
            assert(num % d == 0 && num / d == d) by (nonlinear_arith)
                requires
                    d * d == num,
                    d >= 1,
            ;
            let f1 = fac.insert(ind as int, d);
            assert(f1 =~= small.push(d) + large);
            assert(factors_from(num, d, ind, fac) == factors_from(num, r, ind + 1, f1));
        }
    }
}

/// Every small divisor found is a divisor below `i` whose square is at most
/// `num`, and they stand in ascending order.
pub proof fn lemma_small_divisors(num: nat, i: nat)
    ensures
        forall|k: int|
            0 <= k < small_divisors(num, i).len() ==> {
                let d = #[trigger] small_divisors(num, i)[k];
                1 <= d < i && d * d <= num && num % d == 0
            },
        forall|j: int, k: int|
            0 <= j < k < small_divisors(num, i).len() ==> small_divisors(num, i)[j]
                < small_divisors(num, i)[k],
        forall|d: nat|
            1 <= d < i && d * d <= num && num % d == 0 ==> small_divisors(num, i).contains(d),
    decreases i,
{
    if i > 1 {
        let d = (i - 1) as nat;
        lemma_small_divisors(num, d);
        let rest = small_divisors(num, d);
        let all = small_divisors(num, i);
        assert forall|x: nat| 1 <= x < i && x * x <= num && num % x == 0 implies all.contains(
            x,
        ) by {
            if x < d {
                assert(rest.contains(x));
                let k = choose|k: int| 0 <= k < rest.len() && rest[k] == x;
                assert(all[k] == x);
            } else {
                assert(all[all.len() - 1] == x);
            }
        }
    }
}

/// Every partner found is a divisor of `num` whose square is more than
/// `num`, and they stand in ascending order.
pub proof fn lemma_large_divisors(num: nat, i: nat)
    ensures
        forall|k: int|
            0 <= k < large_divisors(num, i).len() ==> {
                let e = #[trigger] large_divisors(num, i)[k];
                e >= 1 && e * e > num && num % e == 0 && 1 <= num / e < i
            },
        forall|j: int, k: int|
            0 <= j < k < large_divisors(num, i).len() ==> large_divisors(num, i)[j]
                < large_divisors(num, i)[k],
        forall|d: nat|
            1 <= d < i && d * d < num && num % d == 0 ==> large_divisors(num, i).contains(
                #[trigger] (num / d),
            ),
    decreases i,
{
    if i > 1 {
        let d = (i - 1) as nat;
        lemma_large_divisors(num, d);
        let rest = large_divisors(num, d);
        let all = large_divisors(num, i);
        assert forall|x: nat| 1 <= x < i && x * x < num && num % x == 0 implies all.contains(
            #[trigger] (num / x),
        ) by {
            if x < d {
                assert(rest.contains(num / x));
                let k = choose|k: int| 0 <= k < rest.len() && rest[k] == num / x;
                if d * d < num && num % d == 0 {
                    assert(all[k + 1] == num / x);
                } else {
                    assert(all[k] == num / x);
                }
            } else {
                assert(all[0] == num / x);
            }
        }
        if d * d < num && num % d == 0 && d >= 1 {
            let e = num / d;
            assert(e * d == num && e > d && e * e > num && num % e == 0 && num / e == d)
                by (nonlinear_arith)
                requires
                    e == num / d,
                    d * d < num,
                    num % d == 0,
                    d >= 1,
            ;
            assert forall|k: int| 0 <= k < all.len() implies {
                let x = #[trigger] all[k];
                x >= 1 && x * x > num && num % x == 0 && 1 <= num / x < i
            } by {
                if k > 0 {
                    assert(all[k] == rest[k - 1]);
                }
            }
            assert forall|j: int, k: int| 0 <= j < k < all.len() implies all[j] < all[k] by {
                assert(all[k] == rest[k - 1]);
                if j > 0 {
                    assert(all[j] == rest[j - 1]);
                } else {
                    let x = rest[k - 1];
                    let y = num / x;
                    assert(e < x) by (nonlinear_arith)
                        requires
                            e * d == num,
                            num % x == 0,
                            y == num / x,
                            1 <= y < d,
                            x >= 1,
                    ;
                }
            }
        }
    }
}

/// The search for the divisors of a number that is not zero finds exactly
/// its divisors, each once, in ascending order.
pub proof fn lemma_factors_are_divisors(num: nat, r: nat)
    requires
        num >= 1,
        r >= 1,
        r * r > num,
        (r - 1) * (r - 1) <= num,
    ensures
        ({
            let f = factors_from(num, 1, 0, Seq::empty());
            &&& forall|j: int, k: int| 0 <= j < k < f.len() ==> f[j] < f[k]
            &&& forall|x: nat| f.contains(x) <==> (x >= 1 && num % x == 0)
        }),
{
    lemma_factors(num, r);
    lemma_small_divisors(num, r);
    lemma_large_divisors(num, r);
    let small = small_divisors(num, r);
    let large = large_divisors(num, r);
    let f = small + large;
    assert forall|j: int, k: int| 0 <= j < k < f.len() implies f[j] < f[k] by {
        if k < small.len() {
            assert(f[j] == small[j] && f[k] == small[k]);
        } else if j >= small.len() {
            assert(f[j] == large[j - small.len()] && f[k] == large[k - small.len()]);
        } else {
            let d = small[j];
            let e = large[k - small.len()];
            assert(f[j] == d && f[k] == e);
            assert(d < e) by (nonlinear_arith)
                requires
                    d * d <= num,
                    e * e > num,
            ;
        }
    }
    assert forall|x: nat| f.contains(x) <==> (x >= 1 && num % x == 0) by {
        if f.contains(x) {
            let k = choose|k: int| 0 <= k < f.len() && f[k] == x;
            if k < small.len() {
                assert(f[k] == small[k]);
            } else {
                assert(f[k] == large[k - small.len()]);
            }
        }
        if x >= 1 && num % x == 0 {
            if x * x <= num {
                assert(x < r) by (nonlinear_arith)
                    requires
                        x * x <= num,
                        r * r > num,
                ;
                assert(small.contains(x));
                let k = choose|k: int| 0 <= k < small.len() && small[k] == x;
                assert(f[k] == x);
            } else {
                let y = num / x;
                assert(y >= 1 && y * x == num && y * y < num && num % y == 0 && num / y == x
                    && y < r) by (nonlinear_arith)
                    requires
                        y == num / x,
                        x * x > num,
                        num % x == 0,
                        x >= 1,
                        num >= 1,
                        r * r > num,
                ;
                assert(large.contains(num / y));
                let k = choose|k: int| 0 <= k < large.len() && large[k] == x;
                assert(f[small.len() + k] == x);
            }
        }
    }
}

} // verus!
