//! The number of cells in a block, with overflow made visible.

use vstd::prelude::*;

verus! {

/// The product of all the numbers in `s`; the empty product is one.
pub open spec fn product(s: Seq<usize>) -> nat
    decreases s.len(),
{
    if s.len() == 0 {
        1
    } else {
        product(s.drop_last()) * (s.last() as nat)
    }
}

/// `n` clipped to the largest `usize`.
pub open spec fn saturated(n: nat) -> usize {
    if n >= usize::MAX {
        usize::MAX
    } else {
        n as usize
    }
}

/// A product without a zero factor is at least one.
pub proof fn lemma_product_positive(s: Seq<usize>)
    requires
        forall|k: int| 0 <= k < s.len() ==> s[k] != 0,
    ensures
        product(s) >= 1,
    decreases s.len(),
{
    if s.len() > 0 {
        lemma_product_positive(s.drop_last());
        let p = product(s.drop_last());
        let x = s.last() as nat;
        assert(p * x >= 1) by (nonlinear_arith)
            requires
                p >= 1,
                x >= 1,
        ;
    }
}

/// With a one at `k`, the product is that of the other factors: putting
/// `x` in its place multiplies the product by `x`.
pub proof fn lemma_product_update(s: Seq<usize>, k: int, x: usize)
    requires
        0 <= k < s.len(),
        s[k] == 1,
    ensures
        product(s.update(k, x)) == product(s) * (x as nat),
    decreases s.len(),
{
    let t = s.update(k, x);
    let p = product(s.drop_last());
    if k == s.len() - 1 {
        assert(t.drop_last() =~= s.drop_last());
        assert(p * 1 == p) by (nonlinear_arith);
    } else {
        lemma_product_update(s.drop_last(), k, x);
        assert(t.drop_last() =~= s.drop_last().update(k, x));
        let l = s.last() as nat;
        let xn = x as nat;
        assert((p * xn) * l == (p * l) * xn) by (nonlinear_arith);
    }
}

/// One step of a product: `acc` times `x`, clipped to the largest `usize`.
pub fn saturating_step(acc: usize, x: usize) -> (r: usize)
    ensures
        r == saturated((acc * x) as nat),
{
    match acc.checked_mul(x) {
        Some(p) => p,
        None => usize::MAX,
    }
}

/// The product of `v`, clipped to the largest `usize`.
///
/// A result of `usize::MAX` therefore means that the true product is that
/// large or larger.
pub fn saturating_product(v: &[usize]) -> (r: usize)
    ensures
        r == saturated(product(v@)),
{
    let mut acc: usize = 1;
    let mut i: usize = 0;
    assert(v@.take(0) =~= Seq::<usize>::empty());
    while i < v.len()
        invariant
            0 <= i <= v@.len(),
            acc == saturated(product(v@.take(i as int))),
        decreases v@.len() - i,
    {
        let x = v[i];
        proof {
            let p = product(v@.take(i as int));
            let xn = x as nat;
            assert(v@.take(i + 1).drop_last() =~= v@.take(i as int));
            assert(product(v@.take(i + 1)) == p * xn);
            if p >= usize::MAX {
                if xn == 0 {
                    assert(p * xn == 0) by (nonlinear_arith)
                        requires
                            xn == 0,
                    ;
                    assert(acc * x == 0) by (nonlinear_arith)
                        requires
                            x == 0,
                    ;
                } else {
                    assert(p * xn >= usize::MAX) by (nonlinear_arith)
                        requires
                            p >= usize::MAX,
                            xn >= 1,
                    ;
                    assert(acc * x >= usize::MAX) by (nonlinear_arith)
                        requires
                            acc >= usize::MAX,
                            x >= 1,
                    ;
                }
            } else {
                assert(acc * x == p * xn);
            }
        }
        acc = saturating_step(acc, x);
        i += 1;
    }
    assert(v@.take(v@.len() as int) =~= v@);
    acc
}

} // verus!
