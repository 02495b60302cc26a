//! The receive/detect loop: convert a received quantized block, correlate
//! it elementwise against the conjugated reference, sum, and report the
//! squared detection magnitude — once per received block, in order.

use vstd::prelude::*;
use crate::correlate::BLOCK_LIMIT;
use crate::correlate::COMPONENT_LIMIT;
use crate::correlate::SUM_COMPONENT_LIMIT;
use crate::correlate::conj_seq;
use crate::correlate::conjugated;
use crate::correlate::lemma_prod_bound;
use crate::correlate::magnitude_squared;
use crate::correlate::multiply_slice;
use crate::correlate::prod_im;
use crate::correlate::prod_re;
use crate::correlate::sum_im;
use crate::correlate::sum_re;
use crate::correlate::sum_slice;
use crate::sample::CSample;
use crate::sample::QSample;
use crate::sample::convert_block;
use crate::sample::widened;
use crate::sample::widened_seq;
use crate::waveform::QUANT_LIMIT;

verus! {

/// In-phase component of the correlation sum of two blocks: the sum over
/// all indices of the in-phase component of the elementwise complex
/// product.
pub open spec fn corr_sum_re(a: Seq<CSample>, b: Seq<CSample>) -> int
    decreases a.len(),
{
    if a.len() == 0 {
        0
    } else {
        corr_sum_re(a.drop_last(), b.drop_last()) + prod_re(a.last(), b.last())
    }
}

/// Quadrature component of the correlation sum of two blocks.
pub open spec fn corr_sum_im(a: Seq<CSample>, b: Seq<CSample>) -> int
    decreases a.len(),
{
    if a.len() == 0 {
        0
    } else {
        corr_sum_im(a.drop_last(), b.drop_last()) + prod_im(a.last(), b.last())
    }
}

/// The squared detection magnitude of one received block against a
/// reference block: the squared Euclidean norm of the correlation sum of
/// the widened received samples and the reference.
pub open spec fn corr_mag_sq(rx: Seq<QSample>, reference: Seq<CSample>) -> int {
    let sr = corr_sum_re(widened_seq(rx), reference);
    let si = corr_sum_im(widened_seq(rx), reference);
    sr * sr + si * si
}

/// If `c` holds elementwise the complex products of `a` and `b`, then the
/// componentwise sum of `c` is the correlation sum of `a` and `b`.
pub(crate) proof fn lemma_sum_of_products(a: Seq<CSample>, b: Seq<CSample>, c: Seq<CSample>)
    requires
        a.len() == b.len(),
        c.len() == a.len(),
        forall|k: int| 0 <= k < a.len()
            ==> (#[trigger] c[k]).re == prod_re(a[k], b[k]) && c[k].im == prod_im(a[k], b[k]),
    ensures
        sum_re(c) == corr_sum_re(a, b),
        sum_im(c) == corr_sum_im(a, b),
    decreases a.len(),
{
    if a.len() > 0 {
        lemma_sum_of_products(a.drop_last(), b.drop_last(), c.drop_last());
    }
}

/// The energy of a quantized block: the sum over all samples of the
/// squared component magnitudes.
pub open spec fn block_energy(q: Seq<QSample>) -> int
    decreases q.len(),
{
    if q.len() == 0 {
        0
    } else {
        block_energy(q.drop_last()) + q.last().re * q.last().re + q.last().im * q.last().im
    }
}

/// Self-correlation: correlating a block against its own conjugate sums
/// the squared sample magnitudes, so the in-phase part of the correlation
/// sum is exactly the block energy and the quadrature part vanishes. The
/// squared detection magnitude of a stream echoing the reference back is
/// therefore exactly the squared energy of the reference block.
pub proof fn lemma_self_correlation(q: Seq<QSample>)
    ensures
        corr_sum_re(widened_seq(q), conj_seq(widened_seq(q))) == block_energy(q),
        corr_sum_im(widened_seq(q), conj_seq(widened_seq(q))) == 0,
    decreases q.len(),
{
    let w = widened_seq(q);
    let c = conj_seq(w);
    if q.len() == 0 {
        assert(w.len() == 0);
    } else {
        assert(w.drop_last() =~= widened_seq(q.drop_last()));
        assert(c.drop_last() =~= conj_seq(widened_seq(q.drop_last())));
        lemma_self_correlation(q.drop_last());
        let x = w.last();
        assert(c.last() == conjugated(x));
        assert(x == widened(q.last()));
        assert(conjugated(x).im == -x.im);
        assert(x.re * (-x.im) + x.im * x.re == 0) by (nonlinear_arith);
        assert(x.re * x.re - x.im * (-x.im) == x.re * x.re + x.im * x.im) by (nonlinear_arith);
    }
}

/// A received block that echoes the transmitted block exactly detects,
/// against the conjugated reference built from that block, at exactly
/// the squared block energy — the same value on every iteration that
/// receives the echo.
pub proof fn lemma_echo_detection(q: Seq<QSample>)
    ensures
        corr_mag_sq(q, conj_seq(widened_seq(q))) == block_energy(q) * block_energy(q),
{
    lemma_self_correlation(q);
}

/// One iteration of the receive/detect loop, after the block has been
/// pulled from the receive stream: widen the received quantized block,
/// multiply it elementwise into `scratch` against the conjugated
/// reference, sum, and return the exact squared detection magnitude.
pub fn detect_step(rx: &Vec<QSample>, reference: &Vec<CSample>, scratch: &mut Vec<CSample>) -> (mag_sq: i128)
    requires
        rx@.len() == reference@.len(),
        old(scratch)@.len() == rx@.len(),
        rx@.len() <= BLOCK_LIMIT,
        forall|k: int| 0 <= k < reference@.len()
            ==> -QUANT_LIMIT <= (#[trigger] reference@[k]).re <= QUANT_LIMIT
                && -QUANT_LIMIT <= reference@[k].im <= QUANT_LIMIT,
    ensures
        mag_sq == corr_mag_sq(rx@, reference@),
        mag_sq >= 0,
        final(scratch)@.len() == rx@.len(),
        forall|k: int| 0 <= k < rx@.len()
            ==> (#[trigger] final(scratch)@[k]).re == prod_re(widened(rx@[k]), reference@[k])
                && final(scratch)@[k].im == prod_im(widened(rx@[k]), reference@[k]),
{
    let wide = convert_block(rx);
    proof {
        assert(forall|k: int| 0 <= k < wide@.len() ==> {
            &&& -COMPONENT_LIMIT <= (#[trigger] wide@[k]).re <= COMPONENT_LIMIT
            &&& -COMPONENT_LIMIT <= wide@[k].im <= COMPONENT_LIMIT
        });
    }
    multiply_slice(&wide, reference, scratch);
    proof {
        assert forall|k: int| 0 <= k < scratch@.len() implies {
            &&& -SUM_COMPONENT_LIMIT <= (#[trigger] scratch@[k]).re <= SUM_COMPONENT_LIMIT
            &&& -SUM_COMPONENT_LIMIT <= scratch@[k].im <= SUM_COMPONENT_LIMIT
        } by {
            lemma_prod_bound(wide@[k], reference@[k], QUANT_LIMIT as int, QUANT_LIMIT as int);
        }
    }
    let total = sum_slice(scratch);
    proof {
        lemma_sum_of_products(wide@, reference@, scratch@);
    }
    magnitude_squared(total)
}

/// The receive/detect loop over a fixed number of received blocks: one
/// squared detection magnitude per block, in block order. The pull from
/// the receive stream itself is the caller's; this is everything the loop
/// computes from what was pulled.
pub fn run_detect(blocks: &Vec<Vec<QSample>>, reference: &Vec<CSample>) -> (mags: Vec<i128>)
    requires
        forall|j: int| 0 <= j < blocks@.len()
            ==> (#[trigger] blocks@[j])@.len() == reference@.len(),
        reference@.len() <= BLOCK_LIMIT,
        forall|k: int| 0 <= k < reference@.len()
            ==> -QUANT_LIMIT <= (#[trigger] reference@[k]).re <= QUANT_LIMIT
                && -QUANT_LIMIT <= reference@[k].im <= QUANT_LIMIT,
    ensures
        mags@.len() == blocks@.len(),
        forall|j: int| 0 <= j < blocks@.len()
            ==> #[trigger] mags@[j] == corr_mag_sq(blocks@[j]@, reference@),
{
    let n: usize = blocks.len();
    let mut scratch: Vec<CSample> = Vec::with_capacity(reference.len());
    let mut f: usize = 0;
    while f < reference.len()
        invariant
            scratch@.len() == f,
            f <= reference@.len(),
        decreases reference@.len() - f,
    {
        scratch.push(CSample { re: 0, im: 0 });
        f = f + 1;
    }
    let mut mags: Vec<i128> = Vec::with_capacity(n);
    let mut j: usize = 0;
    while j < n
        invariant
            j <= n,
            n == blocks@.len(),
            scratch@.len() == reference@.len(),
            reference@.len() <= BLOCK_LIMIT,
            forall|i: int| 0 <= i < n
                ==> (#[trigger] blocks@[i])@.len() == reference@.len(),
            forall|k: int| 0 <= k < reference@.len()
                ==> -QUANT_LIMIT <= (#[trigger] reference@[k]).re <= QUANT_LIMIT
                    && -QUANT_LIMIT <= reference@[k].im <= QUANT_LIMIT,
            mags@.len() == j,
            forall|i: int| 0 <= i < j
                ==> #[trigger] mags@[i] == corr_mag_sq(blocks@[i]@, reference@),
        decreases n - j,
    {
        let mag_sq = detect_step(&blocks[j], reference, &mut scratch);
        mags.push(mag_sq);
        j = j + 1;
    }
    mags
}

} // verus!
