use tone_detector::ShutdownCoordinator;
use tone_detector::TransferError;
use tone_detector::TxCycle;
use tone_detector::TxState;
use tone_detector::run_transmit_loop;
use tone_detector::tx_cycle_step;
use tone_detector::tx_exit;

fn quiet(n: usize) -> Vec<TxCycle> {
    (0..n).map(|_| TxCycle { push_ok: true, signaled: false }).collect()
}

#[test]
fn one_cycle_decisions() {
    assert_eq!(
        tx_cycle_step(TxCycle { push_ok: true, signaled: false }),
        Ok(TxState::Running)
    );
    assert_eq!(
        tx_cycle_step(TxCycle { push_ok: true, signaled: true }),
        Ok(TxState::Stopping)
    );
    assert_eq!(
        tx_cycle_step(TxCycle { push_ok: false, signaled: false }),
        Err(TransferError::PushFailed)
    );
    // The push happens before the poll: a failed push ends the loop even
    // if the signal arrived in the same cycle.
    assert_eq!(
        tx_cycle_step(TxCycle { push_ok: false, signaled: true }),
        Err(TransferError::PushFailed)
    );
}

#[test]
fn stopping_settles_as_stopped_on_exit() {
    assert_eq!(tx_exit(TxState::Stopping), TxState::Stopped);
    assert_eq!(tx_exit(TxState::Stopped), TxState::Stopped);
}

#[test]
fn loop_stops_one_cycle_after_the_signal() {
    let mut cycles = quiet(7);
    cycles[4].signaled = true;
    // Later cycles are never observed; poison them to prove it.
    cycles[5] = TxCycle { push_ok: false, signaled: false };
    cycles[6] = TxCycle { push_ok: true, signaled: true };
    let r = run_transmit_loop(&cycles);
    assert_eq!(r, Ok((TxState::Stopped, 5)));
}

#[test]
fn loop_keeps_running_while_unsignaled() {
    let cycles = quiet(100);
    let r = run_transmit_loop(&cycles);
    assert_eq!(r, Ok((TxState::Running, 100)));
}

#[test]
fn failed_push_is_fatal_and_not_retried() {
    let mut cycles = quiet(3);
    cycles[1].push_ok = false;
    let r = run_transmit_loop(&cycles);
    assert_eq!(r, Err(TransferError::PushFailed));
}

#[test]
fn signal_on_the_first_cycle_stops_after_one_push() {
    let mut cycles = quiet(2);
    cycles[0].signaled = true;
    let r = run_transmit_loop(&cycles);
    assert_eq!(r, Ok((TxState::Stopped, 1)));
}

#[test]
fn coordinator_fires_exactly_once() {
    let mut coordinator = ShutdownCoordinator::new();
    assert!(!coordinator.has_signaled());
    coordinator.signal();
    assert!(coordinator.has_signaled());
}
