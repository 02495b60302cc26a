//! The correlation engine: elementwise complex multiplication, in-place
//! conjugation, block summation and the squared Euclidean magnitude of the
//! sum, together with the algebraic laws that hold of them.

use vstd::prelude::*;
use crate::sample::CSample;

verus! {

/// Largest component magnitude the elementwise multiplier accepts.
/// Products of two components then stay below 1 << 61, so a complex
/// product fits the wide sample type with room to spare. Hardware-domain
/// samples are more than four orders of magnitude smaller.
pub const COMPONENT_LIMIT: i64 = 0x4000_0000;

/// Largest component magnitude the block summation accepts per element.
pub const SUM_COMPONENT_LIMIT: i64 = 0x1_0000_0000;

/// Largest block length the summation accepts. With per-element components
/// bounded by `SUM_COMPONENT_LIMIT`, a block sum then stays below 1 << 62.
pub const BLOCK_LIMIT: usize = 0x4000_0000;

/// In-phase component of the complex product of two samples.
pub open spec fn prod_re(a: CSample, b: CSample) -> int {
    a.re * b.re - a.im * b.im
}

/// Quadrature component of the complex product of two samples.
pub open spec fn prod_im(a: CSample, b: CSample) -> int {
    a.re * b.im + a.im * b.re
}

/// The complex conjugate of a sample: the quadrature component negated.
/// Negation of the one unrepresentable value wraps to itself; the
/// executable conjugation refuses that value up front.
pub open spec fn conjugated(a: CSample) -> CSample {
    CSample { re: a.re, im: if a.im == i64::MIN { a.im } else { (-a.im) as i64 } }
}

/// A whole block conjugated, elementwise.
pub open spec fn conj_seq(s: Seq<CSample>) -> Seq<CSample> {
    s.map_values(|a: CSample| conjugated(a))
}

/// Sum of the in-phase components of a block.
pub open spec fn sum_re(s: Seq<CSample>) -> int
    decreases s.len(),
{
    if s.len() == 0 {
        0
    } else {
        sum_re(s.drop_last()) + s.last().re
    }
}

/// Sum of the quadrature components of a block.
pub open spec fn sum_im(s: Seq<CSample>) -> int
    decreases s.len(),
{
    if s.len() == 0 {
        0
    } else {
        sum_im(s.drop_last()) + s.last().im
    }
}

/// A product of two values is bounded by the product of their bounds.
pub(crate) proof fn lemma_mul_bound(x: int, y: int, bx: int, by: int) by (nonlinear_arith)
    requires
        -bx <= x <= bx,
        -by <= y <= by,
    ensures
        -(bx * by) <= x * y <= bx * by,
{
}

/// Both components of a complex product are bounded by twice the product
/// of the componentwise bounds of the factors.
pub(crate) proof fn lemma_prod_bound(a: CSample, b: CSample, ba: int, bb: int) by (nonlinear_arith)
    requires
        -ba <= a.re <= ba,
        -ba <= a.im <= ba,
        -bb <= b.re <= bb,
        -bb <= b.im <= bb,
    ensures
        -2 * (ba * bb) <= prod_re(a, b) <= 2 * (ba * bb),
        -2 * (ba * bb) <= prod_im(a, b) <= 2 * (ba * bb),
{
}

/// Elementwise complex multiplication: fill `c` with the complex products
/// of the corresponding samples of `a` and `b`.
pub fn multiply_slice(a: &Vec<CSample>, b: &Vec<CSample>, c: &mut Vec<CSample>)
    requires
        a@.len() == b@.len(),
        old(c)@.len() == a@.len(),
        forall|k: int| 0 <= k < a@.len()
            ==> -COMPONENT_LIMIT <= (#[trigger] a@[k]).re <= COMPONENT_LIMIT
                && -COMPONENT_LIMIT <= a@[k].im <= COMPONENT_LIMIT,
        forall|k: int| 0 <= k < b@.len()
            ==> -COMPONENT_LIMIT <= (#[trigger] b@[k]).re <= COMPONENT_LIMIT
                && -COMPONENT_LIMIT <= b@[k].im <= COMPONENT_LIMIT,
    ensures
        final(c)@.len() == a@.len(),
        forall|k: int| 0 <= k < a@.len()
            ==> (#[trigger] final(c)@[k]).re == prod_re(a@[k], b@[k])
                && final(c)@[k].im == prod_im(a@[k], b@[k]),
{
    let n: usize = a.len();
    let mut i: usize = 0;
    while i < n
        invariant
            i <= n,
            n == a@.len() == b@.len(),
            c@.len() == n,
            forall|k: int| 0 <= k < n
                ==> -COMPONENT_LIMIT <= (#[trigger] a@[k]).re <= COMPONENT_LIMIT
                    && -COMPONENT_LIMIT <= a@[k].im <= COMPONENT_LIMIT,
            forall|k: int| 0 <= k < n
                ==> -COMPONENT_LIMIT <= (#[trigger] b@[k]).re <= COMPONENT_LIMIT
                    && -COMPONENT_LIMIT <= b@[k].im <= COMPONENT_LIMIT,
            forall|k: int| 0 <= k < i
                ==> (#[trigger] c@[k]).re == prod_re(a@[k], b@[k])
                    && c@[k].im == prod_im(a@[k], b@[k]),
        decreases n - i,
    {
        let va = a[i];
        let vb = b[i];
        proof {
            let lim: int = COMPONENT_LIMIT as int;
            lemma_mul_bound(va.re as int, vb.re as int, lim, lim);
            lemma_mul_bound(va.im as int, vb.im as int, lim, lim);
            lemma_mul_bound(va.re as int, vb.im as int, lim, lim);
            lemma_mul_bound(va.im as int, vb.re as int, lim, lim);
        }
        let re: i64 = va.re * vb.re - va.im * vb.im;
        let im: i64 = va.re * vb.im + va.im * vb.re;
        c.set(i, CSample { re, im });
        i = i + 1;
    }
}

/// Conjugate a block in place: negate the quadrature component of every
/// sample, leaving the in-phase component untouched.
pub fn conjugate_slice(a: &mut Vec<CSample>)
    requires
        forall|k: int| 0 <= k < old(a)@.len() ==> (#[trigger] old(a)@[k]).im != i64::MIN,
    ensures
        final(a)@ == conj_seq(old(a)@),
        final(a)@.len() == old(a)@.len(),
        forall|k: int| 0 <= k < old(a)@.len()
            ==> (#[trigger] final(a)@[k]).re == old(a)@[k].re
                && final(a)@[k].im == -old(a)@[k].im,
{
    let n: usize = a.len();
    let mut i: usize = 0;
    while i < n
        invariant
            i <= n,
            n == a@.len() == old(a)@.len(),
            forall|k: int| i <= k < n ==> #[trigger] a@[k] == old(a)@[k],
            forall|k: int| 0 <= k < n ==> (#[trigger] old(a)@[k]).im != i64::MIN,
            forall|k: int| 0 <= k < i ==> #[trigger] a@[k] == conjugated(old(a)@[k]),
        decreases n - i,
    {
        let v = a[i];
        a.set(i, CSample { re: v.re, im: -v.im });
        i = i + 1;
    }
    proof {
        assert(a@ =~= conj_seq(old(a)@));
    }
}

/// Componentwise sum of a block, exact over the whole accepted range.
pub fn sum_slice(a: &Vec<CSample>) -> (out: CSample)
    requires
        a@.len() <= BLOCK_LIMIT,
        forall|k: int| 0 <= k < a@.len()
            ==> -SUM_COMPONENT_LIMIT <= (#[trigger] a@[k]).re <= SUM_COMPONENT_LIMIT
                && -SUM_COMPONENT_LIMIT <= a@[k].im <= SUM_COMPONENT_LIMIT,
    ensures
        out.re == sum_re(a@),
        out.im == sum_im(a@),
        -(a@.len() * SUM_COMPONENT_LIMIT) <= out.re <= a@.len() * SUM_COMPONENT_LIMIT,
        -(a@.len() * SUM_COMPONENT_LIMIT) <= out.im <= a@.len() * SUM_COMPONENT_LIMIT,
{
    let n: usize = a.len();
    let mut re: i64 = 0;
    let mut im: i64 = 0;
    let mut i: usize = 0;
    while i < n
        invariant
            i <= n,
            n == a@.len() <= BLOCK_LIMIT,
            forall|k: int| 0 <= k < n
                ==> -SUM_COMPONENT_LIMIT <= (#[trigger] a@[k]).re <= SUM_COMPONENT_LIMIT
                    && -SUM_COMPONENT_LIMIT <= a@[k].im <= SUM_COMPONENT_LIMIT,
            re == sum_re(a@.take(i as int)),
            im == sum_im(a@.take(i as int)),
            -(i * SUM_COMPONENT_LIMIT) <= re <= i * SUM_COMPONENT_LIMIT,
            -(i * SUM_COMPONENT_LIMIT) <= im <= i * SUM_COMPONENT_LIMIT,
        decreases n - i,
    {
        proof {
            assert(a@.take(i + 1).drop_last() =~= a@.take(i as int));
            assert(a@.take(i + 1).last() == a@[i as int]);
        }
        re = re + a[i].re;
        im = im + a[i].im;
        i = i + 1;
    }
    proof {
        assert(a@.take(n as int) =~= a@);
    }
    CSample { re, im }
}

/// Squared Euclidean magnitude of one complex sample; the detection
/// magnitude itself is the square root of this exact integer, and the
/// root is monotone, so detection strengths compare exactly through it.
pub fn magnitude_squared(s: CSample) -> (m: i128)
    requires
        s.re > i64::MIN,
        s.im > i64::MIN,
    ensures
        m == s.re * s.re + s.im * s.im,
        m >= 0,
{
    proof {
        lemma_mul_bound(s.re as int, s.re as int, i64::MAX as int, i64::MAX as int);
        lemma_mul_bound(s.im as int, s.im as int, i64::MAX as int, i64::MAX as int);
        assert(s.re * s.re >= 0) by (nonlinear_arith);
        assert(s.im * s.im >= 0) by (nonlinear_arith);
    }
    let re: i128 = s.re as i128;
    let im: i128 = s.im as i128;
    re * re + im * im
}

/// Conjugation is its own inverse: conjugating a block twice restores
/// every sample, hence the block itself.
pub proof fn lemma_conjugate_involutive(s: Seq<CSample>)
    ensures
        conj_seq(conj_seq(s)) == s,
{
    assert forall|k: int| 0 <= k < s.len() implies #[trigger] conj_seq(conj_seq(s))[k] == s[k] by {
        assert(conj_seq(s)[k] == conjugated(s[k]));
        assert(conj_seq(conj_seq(s))[k] == conjugated(conjugated(s[k])));
    }
    assert(conj_seq(conj_seq(s)) =~= s);
}

/// Removing one sample from a block removes exactly its contribution from
/// each component of the block sum.
pub(crate) proof fn lemma_sum_remove(s: Seq<CSample>, i: int)
    requires
        0 <= i < s.len(),
    ensures
        sum_re(s) == sum_re(s.remove(i)) + s[i].re,
        sum_im(s) == sum_im(s.remove(i)) + s[i].im,
    decreases s.len(),
{
    if i == s.len() - 1 {
        assert(s.remove(i) =~= s.drop_last());
    } else {
        assert(s.remove(i).drop_last() =~= s.drop_last().remove(i));
        assert(s.remove(i).last() == s.last());
        lemma_sum_remove(s.drop_last(), i);
    }
}

/// The block sum does not depend on the order of the samples: two blocks
/// holding the same samples with the same multiplicities have the same
/// componentwise sum, hence the same summed magnitude.
pub proof fn lemma_sum_permutation(s: Seq<CSample>, t: Seq<CSample>)
    requires
        s.to_multiset() == t.to_multiset(),
    ensures
        sum_re(s) == sum_re(t),
        sum_im(s) == sum_im(t),
        sum_re(s) * sum_re(s) + sum_im(s) * sum_im(s) == sum_re(t) * sum_re(t) + sum_im(t)
            * sum_im(t),
    decreases s.len(),
{
    broadcast use vstd::seq_lib::group_to_multiset_ensures;

    if s.len() == 0 {
        assert(s.to_multiset().len() == s.len());
        assert(t.to_multiset().len() == t.len());
    } else {
        let x = s.last();
        assert(s.contains(x));
        assert(s.to_multiset().count(x) > 0);
        assert(t.to_multiset().count(x) > 0);
        assert(t.contains(x));
        let i = choose|i: int| 0 <= i < t.len() && t[i] == x;
        assert(s.remove(s.len() - 1).to_multiset() == s.to_multiset().remove(x));
        assert(t.remove(i).to_multiset() == t.to_multiset().remove(x));
        assert(s.remove(s.len() - 1) =~= s.drop_last());
        lemma_sum_permutation(s.drop_last(), t.remove(i));
        lemma_sum_remove(t, i);
    }
}

} // verus!
