use coop_core::diag::{DiagSink, LogEntry, LogQueue};
use coop_core::link::{complete_and_log, CmdOutcome, Command, LinkDriver, SubmitError};
use coop_core::plan::{next_action, AppAction};
use coop_core::resource::ResourceInitializer;

/// Submit `set_pin(0, true)`, then — after the plan's one-unit wait —
/// `set_pin(0, false)`. The sink must observe "on" logged strictly before
/// "off", and each acknowledgment reaches the application before the next
/// command is submitted.
#[test]
fn blink_on_is_observed_before_blink_off() {
    let handles = ResourceInitializer::new().claim_all();
    let sink = DiagSink::new(handles.diag);
    let mut d = LinkDriver::new(handles.serial, handles.power, 4);
    d.begin_negotiation();
    assert_eq!(d.handshake_ack(true), None);
    let mut q = LogQueue::new();

    // First command: pin 0 on.
    assert_eq!(d.set_pin(0, true), Ok(()));
    assert_eq!(
        d.begin_transaction(),
        Some(Command::SetPin { index: 0, level: true })
    );
    let (cmd_on, ack_on) = complete_and_log(&mut d, &mut q, true).unwrap();
    // The acknowledgment is delivered before anything else is submitted.
    assert_eq!(cmd_on, Command::SetPin { index: 0, level: true });
    assert_eq!(ack_on, CmdOutcome::Ack);

    // One time unit of waiting, then the second command: pin 0 off.
    assert_eq!(d.set_pin(0, false), Ok(()));
    assert_eq!(
        d.begin_transaction(),
        Some(Command::SetPin { index: 0, level: false })
    );
    let (cmd_off, ack_off) = complete_and_log(&mut d, &mut q, true).unwrap();
    assert_eq!(cmd_off, Command::SetPin { index: 0, level: false });
    assert_eq!(ack_off, CmdOutcome::Ack);

    // The sink drains "on" strictly before "off".
    assert_eq!(
        sink.drain_one(&mut q, true),
        Some(LogEntry::PinSet { index: 0, level: true })
    );
    assert_eq!(
        sink.drain_one(&mut q, true),
        Some(LogEntry::PinSet { index: 0, level: false })
    );
    assert_eq!(sink.drain_one(&mut q, true), None);
}

/// A handshake that never receives its acknowledgment: the driver reports
/// exactly one fatal negotiation diagnostic and then fails every command,
/// never silently succeeding.
#[test]
fn handshake_timeout_degrades_and_reports_exactly_once() {
    let handles = ResourceInitializer::new().claim_all();
    let mut d = LinkDriver::new(handles.serial, handles.power, 3);
    d.begin_negotiation();
    let mut q = LogQueue::new();
    let mut polls = 0;
    loop {
        match d.handshake_tick() {
            None => {
                polls += 1;
                assert!(polls < 3, "the timeout must fire within its budget");
            }
            Some(report) => {
                q.push(report);
                break;
            }
        }
    }
    // Exactly one fatal diagnostic reached the sink.
    assert_eq!(q.pop(), Some(LogEntry::NegotiationFailed));
    assert_eq!(q.pop(), None);
    // Every command thereafter fails fast with the degraded result.
    for i in 0..5u8 {
        assert_eq!(d.set_pin(i, true), Err(SubmitError::Degraded));
    }
}

#[test]
fn the_application_plan_blinks_with_paced_waits() {
    assert!(matches!(next_action(0), AppAction::Configure { .. }));
    assert_eq!(next_action(1), AppAction::Drive { index: 0, level: true });
    assert_eq!(next_action(2), AppAction::Pause { units: 1 });
    assert_eq!(next_action(3), AppAction::Drive { index: 0, level: false });
    assert_eq!(next_action(4), AppAction::Pause { units: 1 });
    assert_eq!(next_action(5), AppAction::Drive { index: 0, level: true });
    assert_eq!(next_action(6), AppAction::Pause { units: 1 });
}
