use coop_core::diag::LogEntry;
use coop_core::link::{
    CmdOutcome, Command, LinkDriver, PowerMode, SubmitError, CMD_CAPACITY,
};
use coop_core::resource::ResourceInitializer;

fn fresh_driver(timeout: u64) -> LinkDriver {
    let handles = ResourceInitializer::new().claim_all();
    LinkDriver::new(handles.serial, handles.power, timeout)
}

fn ready_driver() -> LinkDriver {
    let mut d = fresh_driver(4);
    d.begin_negotiation();
    let report = d.handshake_ack(true);
    assert_eq!(report, None);
    d
}

#[test]
fn successful_negotiation_reaches_ready() {
    let mut d = fresh_driver(3);
    d.begin_negotiation();
    assert_eq!(d.handshake_tick(), None);
    assert_eq!(d.handshake_ack(true), None);
    assert_eq!(d.set_pin(0, true), Ok(()));
}

#[test]
fn handshake_timeout_reports_once_then_degrades() {
    let mut d = fresh_driver(2);
    d.begin_negotiation();
    let mut reports = 0;
    if d.handshake_tick().is_some() {
        reports += 1;
    }
    if d.handshake_tick().is_some() {
        reports += 1;
    }
    // Exactly one fatal diagnostic for the failed negotiation.
    assert_eq!(reports, 1);
    // Every later submission fails immediately with the degraded result.
    assert_eq!(d.set_pin(0, true), Err(SubmitError::Degraded));
    assert_eq!(
        d.set_power_mode(PowerMode::PowerSave),
        Err(SubmitError::Degraded)
    );
    assert_eq!(
        d.submit(Command::SetPin { index: 2, level: false }),
        Err(SubmitError::Degraded)
    );
}

#[test]
fn malformed_ack_degrades() {
    let mut d = fresh_driver(8);
    d.begin_negotiation();
    let report = d.handshake_ack(false);
    assert_eq!(report, Some(LogEntry::NegotiationFailed));
    assert_eq!(d.set_pin(1, true), Err(SubmitError::Degraded));
}

#[test]
fn submissions_before_ready_are_refused() {
    let mut d = fresh_driver(4);
    assert_eq!(d.set_pin(0, true), Err(SubmitError::NotReady));
    d.begin_negotiation();
    assert_eq!(d.set_pin(0, true), Err(SubmitError::NotReady));
}

#[test]
fn responses_come_back_in_submission_order() {
    let mut d = ready_driver();
    let a = Command::SetPin { index: 0, level: true };
    let b = Command::SetPowerMode { mode: PowerMode::Performance };
    let c = Command::SetPin { index: 1, level: false };
    assert_eq!(d.submit(a), Ok(()));
    assert_eq!(d.submit(b), Ok(()));
    assert_eq!(d.submit(c), Ok(()));
    let mut served = Vec::new();
    while let Some(cmd) = d.begin_transaction() {
        let (done, outcome) = d.complete_transaction(true).unwrap();
        assert_eq!(done, cmd);
        assert_eq!(outcome, CmdOutcome::Ack);
        served.push(done);
    }
    assert_eq!(served, vec![a, b, c]);
}

#[test]
fn transient_failure_keeps_the_driver_ready() {
    let mut d = ready_driver();
    assert_eq!(d.set_pin(0, true), Ok(()));
    assert_eq!(d.set_pin(0, false), Ok(()));
    d.begin_transaction().unwrap();
    let (_, outcome) = d.complete_transaction(false).unwrap();
    assert_eq!(outcome, CmdOutcome::TransientFailure);
    // The next command is serviced normally.
    d.begin_transaction().unwrap();
    let (cmd, outcome) = d.complete_transaction(true).unwrap();
    assert_eq!(cmd, Command::SetPin { index: 0, level: false });
    assert_eq!(outcome, CmdOutcome::Ack);
    // And new submissions are still accepted.
    assert_eq!(d.set_pin(2, true), Ok(()));
}

#[test]
fn full_queue_pushes_back_without_dropping() {
    let mut d = ready_driver();
    for i in 0..CMD_CAPACITY {
        assert_eq!(d.set_pin(i as u8, true), Ok(()));
    }
    assert_eq!(d.set_pin(99, true), Err(SubmitError::QueueFull));
    // Servicing one command makes room for exactly one more.
    d.begin_transaction().unwrap();
    d.complete_transaction(true).unwrap();
    assert_eq!(d.set_pin(99, true), Ok(()));
    assert_eq!(d.set_pin(100, true), Err(SubmitError::QueueFull));
    // The refused submissions never entered the queue: drain and check.
    let mut served = Vec::new();
    while let Some(_) = d.begin_transaction() {
        let (done, _) = d.complete_transaction(true).unwrap();
        served.push(done);
    }
    assert_eq!(served.len(), CMD_CAPACITY);
    assert_eq!(served[0], Command::SetPin { index: 1, level: true });
    assert_eq!(served[CMD_CAPACITY - 1], Command::SetPin { index: 99, level: true });
}

#[test]
fn no_transaction_without_work_or_overlap() {
    let mut d = ready_driver();
    // Nothing pending: nothing starts, nothing completes.
    assert_eq!(d.begin_transaction(), None);
    assert_eq!(d.complete_transaction(true), None);
    // One pending command supports exactly one outstanding transaction.
    assert_eq!(d.set_pin(0, true), Ok(()));
    assert_eq!(d.set_pin(1, true), Ok(()));
    assert_eq!(
        d.begin_transaction(),
        Some(Command::SetPin { index: 0, level: true })
    );
    // A second transaction cannot begin while one is in flight.
    assert_eq!(d.begin_transaction(), None);
    d.complete_transaction(true).unwrap();
    assert_eq!(
        d.begin_transaction(),
        Some(Command::SetPin { index: 1, level: true })
    );
}
