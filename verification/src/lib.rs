//! A continuous-wave tone detector core: the numeric correlation engine,
//! the sample-format converter, the transmit-loop state machine and the
//! shutdown handshake for a duplex software-defined-radio pipeline.
//!
//! Every value the pipeline handles is integer-valued: hardware I/Q samples
//! are fixed-width signed integers, and the quantized reference tone is
//! built from such integers. The correlation arithmetic here is therefore
//! exact integer arithmetic; the only operations that need wider number
//! formats (tone synthesis and the final square root of the detection
//! statistic) live with the device glue, outside this crate's verified core.

mod correlate;
mod detect;
mod sample;
mod txloop;
mod waveform;

pub use correlate::BLOCK_LIMIT;
pub use correlate::COMPONENT_LIMIT;
pub use correlate::SUM_COMPONENT_LIMIT;
pub use correlate::conj_seq;
pub use correlate::conjugate_slice;
pub use correlate::conjugated;
pub use correlate::lemma_conjugate_involutive;
pub use correlate::lemma_sum_permutation;
pub use correlate::magnitude_squared;
pub use correlate::multiply_slice;
pub use correlate::prod_im;
pub use correlate::prod_re;
pub use correlate::sum_im;
pub use correlate::sum_re;
pub use correlate::sum_slice;
pub use detect::block_energy;
pub use detect::corr_mag_sq;
pub use detect::corr_sum_im;
pub use detect::corr_sum_re;
pub use detect::detect_step;
pub use detect::lemma_echo_detection;
pub use detect::lemma_self_correlation;
pub use detect::run_detect;
pub use sample::CSample;
pub use sample::QSample;
pub use sample::convert_block;
pub use sample::widened;
pub use sample::widened_seq;
pub use txloop::ShutdownCoordinator;
pub use txloop::TransferError;
pub use txloop::TxCycle;
pub use txloop::TxState;
pub use txloop::cycle_outcome;
pub use txloop::lemma_shutdown_determinism;
pub use txloop::run_transmit_loop;
pub use txloop::tx_cycle_step;
pub use txloop::tx_exit;
pub use txloop::tx_run;
pub use waveform::QUANT_LIMIT;
pub use waveform::ReferenceWaveform;
