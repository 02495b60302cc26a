//! The transmit loop as a state machine, and the one-shot shutdown
//! coordinator.
//!
//! The loop itself blocks on a hardware push each cycle; what is verified
//! here is every decision it takes: what one observed cycle does to the
//! loop state, and what a whole run of observed cycles therefore yields.
//! The thread that performs the pushes drives these functions with what
//! it observed.

use vstd::prelude::*;

verus! {

/// The transmit loop's state. The loop starts `Running`; seeing the
/// shutdown signal moves it to `Stopping`, on which it exits its cycle
/// and settles in the terminal `Stopped`.
#[derive(Clone, Copy, PartialEq, Eq, Structural, Debug)]
pub enum TxState {
    Running,
    Stopping,
    Stopped,
}

/// The fatal failure of a stream push. A failed transfer is never
/// retried: it ends the loop and is surfaced to the owner of its thread.
#[derive(Clone, Copy, PartialEq, Eq, Structural, Debug)]
pub enum TransferError {
    PushFailed,
}

/// What the transmit loop observes in one cycle: whether the blocking
/// push of the reference block succeeded, and whether the non-blocking
/// poll of the shutdown signal — made once, after the push — saw it.
#[derive(Clone, Copy, PartialEq, Eq, Structural, Debug)]
pub struct TxCycle {
    pub push_ok: bool,
    pub signaled: bool,
}

/// What one cycle observed in the `Running` state yields: the failure if
/// the push failed, `Stopping` if the shutdown signal was seen, and
/// `Running` otherwise.
pub open spec fn cycle_outcome(c: TxCycle) -> Result<TxState, TransferError> {
    if !c.push_ok {
        Err(TransferError::PushFailed)
    } else if c.signaled {
        Ok(TxState::Stopping)
    } else {
        Ok(TxState::Running)
    }
}

/// One decision of the transmit loop, taken after each push and poll.
pub fn tx_cycle_step(cycle: TxCycle) -> (r: Result<TxState, TransferError>)
    ensures
        r == cycle_outcome(cycle),
{
    if !cycle.push_ok {
        Err(TransferError::PushFailed)
    } else if cycle.signaled {
        Ok(TxState::Stopping)
    } else {
        Ok(TxState::Running)
    }
}

/// Leaving the cycle: `Stopping` settles in the terminal `Stopped`; the
/// terminal states stay what they are.
pub fn tx_exit(state: TxState) -> (r: TxState)
    requires
        state != TxState::Running,
    ensures
        r == TxState::Stopped,
{
    match state {
        TxState::Running => TxState::Stopped,
        TxState::Stopping => TxState::Stopped,
        TxState::Stopped => TxState::Stopped,
    }
}

/// The state and push count a run of observed cycles ends in, starting
/// `Running`: the first failed push ends the run with the failure; the
/// first signal seen ends it `Stopped` after that cycle's push; a run
/// that observes neither is still `Running` after pushing once per cycle.
pub open spec fn tx_run(cycles: Seq<TxCycle>) -> Result<(TxState, int), TransferError>
    decreases cycles.len(),
{
    if cycles.len() == 0 {
        Ok((TxState::Running, 0))
    } else if !cycles.first().push_ok {
        Err(TransferError::PushFailed)
    } else if cycles.first().signaled {
        Ok((TxState::Stopped, 1))
    } else {
        match tx_run(cycles.drop_first()) {
            Ok(sn) => Ok((sn.0, sn.1 + 1)),
            Err(e) => Err(e),
        }
    }
}

/// Processing one non-deciding cycle at the front of a run adds one push
/// to whatever the rest of the run yields.
pub(crate) proof fn lemma_tx_run_shift(cycles: Seq<TxCycle>, i: int)
    requires
        0 <= i < cycles.len(),
        cycles[i].push_ok,
        !cycles[i].signaled,
    ensures
        tx_run(cycles.skip(i)) matches Ok(sn)
            ==> (tx_run(cycles.skip(i + 1)) matches Ok(t) && sn.0 == t.0 && sn.1 == t.1 + 1),
        tx_run(cycles.skip(i)) matches Err(e) ==> tx_run(cycles.skip(i + 1)) == Err::<(TxState, int), TransferError>(e),
{
    assert(cycles.skip(i).first() == cycles[i]);
    assert(cycles.skip(i).drop_first() =~= cycles.skip(i + 1));
}

/// The transmit loop over a run of observed cycles: push, poll, decide,
/// until a cycle decides or the observations end. Returns the first push
/// failure, or the final state with the number of pushes made.
pub fn run_transmit_loop(cycles: &Vec<TxCycle>) -> (r: Result<(TxState, usize), TransferError>)
    ensures
        tx_run(cycles@) matches Ok(sn)
            ==> (r matches Ok(p) && p.0 == sn.0 && p.1 == sn.1),
        tx_run(cycles@) matches Err(e) ==> r == Err::<(TxState, usize), TransferError>(e),
{
    let n: usize = cycles.len();
    let mut state: TxState = TxState::Running;
    let mut i: usize = 0;
    proof {
        assert(cycles@.skip(0) =~= cycles@);
    }
    while i < n
        invariant
            i <= n,
            n == cycles@.len(),
            state == TxState::Running,
            tx_run(cycles@) matches Ok(sn)
                ==> (tx_run(cycles@.skip(i as int)) matches Ok(t) && sn.0 == t.0 && sn.1 == t.1
                    + i),
            tx_run(cycles@) matches Err(e) ==> tx_run(cycles@.skip(i as int)) == Err::<
                (TxState, int),
                TransferError,
            >(e),
        decreases n - i,
    {
        let c = cycles[i];
        proof {
            assert(cycles@.skip(i as int).first() == cycles@[i as int]);
            assert(cycles@.skip(i as int).drop_first() =~= cycles@.skip(i + 1));
        }
        match tx_cycle_step(c) {
            Err(e) => {
                return Err(e);
            },
            Ok(next) => {
                if matches!(next, TxState::Stopping) {
                    let settled = tx_exit(next);
                    return Ok((settled, i + 1));
                }
                state = next;
            },
        }
        proof {
            lemma_tx_run_shift(cycles@, i as int);
        }
        i = i + 1;
    }
    Ok((state, n))
}

/// The one-shot shutdown coordinator: the single producer of the shutdown
/// signal. The signal can be sent exactly once — a second send is ruled
/// out by contract, not merely unobserved — and sending never blocks.
pub struct ShutdownCoordinator {
    sent: bool,
}

impl ShutdownCoordinator {
    /// Whether the signal has been sent.
    pub closed spec fn sent(self) -> bool {
        self.sent
    }

    /// A fresh coordinator; nothing has been signaled yet.
    pub fn new() -> (c: ShutdownCoordinator)
        ensures
            !c.sent(),
    {
        ShutdownCoordinator { sent: false }
    }

    /// Send the shutdown signal. Callable exactly once.
    pub fn signal(&mut self)
        requires
            !old(self).sent(),
        ensures
            final(self).sent(),
    {
        self.sent = true;
    }

    /// Whether the signal has been sent, as the transmit side's poll of
    /// the delivered value would see it once delivery is complete.
    pub fn has_signaled(&self) -> (b: bool)
        ensures
            b == self.sent(),
    {
        self.sent
    }
}

/// Shutdown determinism: if every push up to and including cycle `i`
/// succeeds, and the shutdown signal is first seen by the poll of cycle
/// `i`, then the run stops — terminally, after exactly `i + 1` pushes —
/// one cycle after the signal is seen, and nothing further (in
/// particular no second signal) is needed for it to do so.
pub proof fn lemma_shutdown_determinism(cycles: Seq<TxCycle>, i: int)
    requires
        0 <= i < cycles.len(),
        forall|k: int| 0 <= k <= i ==> (#[trigger] cycles[k]).push_ok,
        forall|k: int| 0 <= k < i ==> !(#[trigger] cycles[k]).signaled,
        cycles[i].signaled,
    ensures
        tx_run(cycles) == Ok::<(TxState, int), TransferError>((TxState::Stopped, i + 1)),
    decreases i,
{
    if i == 0 {
        assert(cycles.first() == cycles[0]);
    } else {
        assert(cycles.first() == cycles[0]);
        assert(cycles.drop_first() =~= cycles.skip(1));
        assert(forall|k: int| 0 <= k <= i - 1 ==> (#[trigger] cycles.skip(1)[k]) == cycles[k + 1]);
        lemma_shutdown_determinism(cycles.skip(1), i - 1);
    }
}

} // verus!
