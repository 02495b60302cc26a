//! Sample types: the quantized (hardware-domain) I/Q sample and the
//! wide integer complex sample the correlation engine computes with,
//! together with the format converter between them.

use vstd::prelude::*;

verus! {

/// One quantized I/Q sample as the hardware transfer interface carries it:
/// a pair of fixed-width signed integers (in-phase, quadrature).
#[derive(Clone, Copy, PartialEq, Eq, Structural, Debug)]
pub struct QSample {
    pub re: i16,
    pub im: i16,
}

/// One complex sample in the working representation of the correlation
/// engine: a pair of wide signed integers (in-phase, quadrature).
///
/// Every sample entering the pipeline is integer-valued, and the bounds
/// proved along the pipeline keep each component and each block sum well
/// inside this width, so products and sums here are the exact complex
/// arithmetic of the samples.
#[derive(Clone, Copy, PartialEq, Eq, Structural, Debug)]
pub struct CSample {
    pub re: i64,
    pub im: i64,
}

/// The complex sample a quantized sample widens to: each component taken
/// unchanged into the wide representation.
pub open spec fn widened(q: QSample) -> CSample {
    CSample { re: q.re as i64, im: q.im as i64 }
}

/// The widened form of a whole block, elementwise.
pub open spec fn widened_seq(s: Seq<QSample>) -> Seq<CSample> {
    s.map_values(|q: QSample| widened(q))
}

/// Format converter: widen a block of quantized samples to complex samples
/// of equal length, losing no information.
pub fn convert_block(v: &Vec<QSample>) -> (out: Vec<CSample>)
    ensures
        out@ == widened_seq(v@),
        out@.len() == v@.len(),
        forall|k: int| 0 <= k < v@.len() ==> #[trigger] out@[k] == widened(v@[k]),
{
    let mut out: Vec<CSample> = Vec::with_capacity(v.len());
    let mut i: usize = 0;
    while i < v.len()
        invariant
            i <= v@.len(),
            out@.len() == i,
            forall|k: int| 0 <= k < i ==> #[trigger] out@[k] == widened(v@[k]),
        decreases v@.len() - i,
    {
        let q = v[i];
        out.push(CSample { re: q.re as i64, im: q.im as i64 });
        i = i + 1;
    }
    proof {
        assert(out@ =~= widened_seq(v@));
    }
    out
}

} // verus!
