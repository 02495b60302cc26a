//! The reference waveform: the quantized tone block the transmit loop
//! pushes, paired with the conjugated wide copy the receive path
//! correlates against.
//!
//! Tone synthesis itself (sampling a complex exponential and scaling it by
//! the amplitude constant) is irrational-number work and is done by the
//! caller that owns the numeric front end; this module takes the finished
//! quantized table and derives everything the two loops need from it,
//! exactly.

use vstd::prelude::*;
use crate::correlate::conj_seq;
use crate::correlate::conjugated;
use crate::sample::CSample;
use crate::sample::QSample;
use crate::sample::convert_block;
use crate::sample::widened;
use crate::sample::widened_seq;

verus! {

/// Largest component magnitude of a widened quantized sample. Every value
/// of the hardware-domain sample type lies within it.
pub const QUANT_LIMIT: i64 = 0x8000;

/// The reference waveform, generated once before the loops start.
///
/// `tx_block` is held read-only by the transmit loop; `detect_ref` is the
/// conjugated wide copy held read-only by the receive/detect loop. Both
/// are derived from one quantized tone table and never mutated afterwards.
pub struct ReferenceWaveform {
    pub tx_block: Vec<QSample>,
    pub detect_ref: Vec<CSample>,
}

impl ReferenceWaveform {
    /// Well-formedness: the two copies have the block length, and the
    /// receive-side copy is exactly the conjugate of the widened transmit
    /// copy.
    pub open spec fn wf(self) -> bool {
        &&& self.detect_ref@.len() == self.tx_block@.len()
        &&& self.detect_ref@ == conj_seq(widened_seq(self.tx_block@))
    }

    /// Every component of the receive-side copy stays in the quantized
    /// range; this is what lets the correlation over a block be summed
    /// without leaving the wide sample type.
    pub open spec fn bounded(self) -> bool {
        forall|k: int| 0 <= k < self.detect_ref@.len()
            ==> -QUANT_LIMIT <= (#[trigger] self.detect_ref@[k]).re <= QUANT_LIMIT
                && -QUANT_LIMIT <= self.detect_ref@[k].im <= QUANT_LIMIT
    }

    /// Build the reference waveform from the quantized tone table: keep
    /// the table as the transmit block, and widen and conjugate it into
    /// the receive-side correlation reference.
    pub fn build(tone: Vec<QSample>) -> (w: ReferenceWaveform)
        ensures
            w.wf(),
            w.bounded(),
            w.tx_block@ == tone@,
    {
        let detect_ref = {
            let mut wide = convert_block(&tone);
            proof {
                assert(forall|k: int| 0 <= k < wide@.len()
                    ==> (#[trigger] wide@[k]).im != i64::MIN);
            }
            crate::correlate::conjugate_slice(&mut wide);
            wide
        };
        proof {
            assert(forall|k: int| 0 <= k < detect_ref@.len() ==> {
                &&& (#[trigger] detect_ref@[k]) == conjugated(widened(tone@[k]))
                &&& -QUANT_LIMIT <= detect_ref@[k].re <= QUANT_LIMIT
                &&& -QUANT_LIMIT <= detect_ref@[k].im <= QUANT_LIMIT
            });
        }
        ReferenceWaveform { tx_block: tone, detect_ref }
    }
}

} // verus!
