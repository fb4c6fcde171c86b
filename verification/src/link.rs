//! The co-processor link driver: negotiation state machine, command queue,
//! and bus transaction bookkeeping.
//!
//! The driver owns the serial bus exclusively, so at most one bus
//! transaction is ever in flight: a transaction is begun with
//! [`LinkDriver::begin_transaction`] and closed with
//! [`LinkDriver::complete_transaction`], and a second one cannot start in
//! between. Negotiation runs `Uninitialized → Negotiating → Ready`; a
//! handshake that times out or comes back malformed drives the driver to
//! `Degraded`, where it stays forever and rejects every later command
//! immediately instead of hanging. Commands submitted through the control
//! facade while `Ready` are serviced strictly in submission order.
//!
//! The driver decides; it does not touch hardware. The caller performs each
//! bus transfer and timer wait and hands the outcome back in as a plain
//! value (`bus_ok`, an elapsed poll, an acknowledgment), so every decision
//! here is verified for every outcome the hardware can produce.

use vstd::prelude::*;
use crate::diag::{LogEntry, LogQueue};
use crate::resource::{CapabilityHandle, ResourceKind};

verus! {

/// How many submitted commands may wait to be serviced. A submission into a
/// full queue is refused (backpressure) rather than dropped.
pub const CMD_CAPACITY: usize = 8;

/// The co-processor's power mode.
#[derive(Clone, Copy, PartialEq, Eq, Structural, Debug)]
pub enum PowerMode {
    /// Full performance, no radio power saving.
    Performance,
    /// The radio's power-saving mode.
    PowerSave,
}

/// A typed command sent to the link driver through the control facade.
#[derive(Clone, Copy, PartialEq, Eq, Structural, Debug)]
pub enum Command {
    /// Drive a companion-chip pin to a level.
    SetPin { index: u8, level: bool },
    /// Change the co-processor's power mode.
    SetPowerMode { mode: PowerMode },
}

/// The result a serviced command reports back to its submitter.
#[derive(Clone, Copy, PartialEq, Eq, Structural, Debug)]
pub enum CmdOutcome {
    /// The bus round-trip succeeded.
    Ack,
    /// This one round-trip failed; the driver stays `Ready` and services
    /// the next command normally.
    TransientFailure,
}

/// Why a submission was refused outright.
#[derive(Clone, Copy, PartialEq, Eq, Structural, Debug)]
pub enum SubmitError {
    /// Negotiation has not completed yet.
    NotReady,
    /// The driver is permanently degraded; no command will ever succeed.
    Degraded,
    /// The command queue is full; try again after the driver drains it.
    QueueFull,
}

/// The link driver's lifecycle.
#[derive(Clone, Copy, PartialEq, Eq, Structural, Debug)]
pub enum LinkState {
    /// No firmware handed over yet.
    Uninitialized,
    /// Firmware sent, waiting for the handshake acknowledgment.
    Negotiating,
    /// Operational: polling the bus and servicing commands.
    Ready,
    /// Negotiation failed; permanently out of service.
    Degraded,
}

/// The diagnostic entry a successfully serviced command leaves behind.
pub open spec fn entry_for(c: Command) -> LogEntry {
    match c {
        Command::SetPin { index, level } => LogEntry::PinSet { index, level },
        Command::SetPowerMode { mode } => (LogEntry::PowerModeSet {
            saving: mode == PowerMode::PowerSave,
        }),
    }
}

/// The runtime state of the co-processor link, exclusively owned by the
/// link driver task. Other tasks reach it only by submitting commands.
pub struct LinkDriver {
    /// The serial-peripheral block, owned for the driver's whole life: no
    /// other task can touch the bus, so a second concurrent transaction is
    /// structurally impossible, not merely discouraged.
    bus: CapabilityHandle,
    /// The co-processor's core-voltage / reset pin, likewise captured.
    power: CapabilityHandle,
    state: LinkState,
    /// Polls spent waiting for the handshake acknowledgment.
    elapsed: u64,
    /// The configured handshake timeout, in polls; at least one.
    timeout: u64,
    /// Commands submitted and not yet taken to the bus, oldest first.
    pending: Vec<Command>,
    /// The single bus transaction currently outstanding, if any.
    in_flight: Option<Command>,
    /// Every command ever accepted by `submit`, in order.
    submitted: Ghost<Seq<Command>>,
    /// Every command whose bus round-trip has finished, in order.
    completed: Ghost<Seq<Command>>,
    /// The outcome reported for each completed command, aligned with it.
    outcomes: Ghost<Seq<CmdOutcome>>,
}

impl LinkDriver {
    /// The lifecycle state.
    pub closed spec fn link_state(self) -> LinkState {
        self.state
    }

    /// Polls spent in negotiation so far.
    pub closed spec fn elapsed_val(self) -> int {
        self.elapsed as int
    }

    /// The configured handshake timeout.
    pub closed spec fn timeout_val(self) -> int {
        self.timeout as int
    }

    /// Commands accepted but not yet on the bus, oldest first.
    pub closed spec fn pending_cmds(self) -> Seq<Command> {
        self.pending@
    }

    /// The one outstanding bus transaction, if any.
    pub closed spec fn in_flight_cmd(self) -> Option<Command> {
        self.in_flight
    }

    /// Every command ever accepted, in submission order.
    pub closed spec fn submitted_cmds(self) -> Seq<Command> {
        self.submitted@
    }

    /// Every command serviced to completion, in the order the submitters
    /// saw their responses.
    pub closed spec fn completed_cmds(self) -> Seq<Command> {
        self.completed@
    }

    /// The response each completed command reported, aligned with
    /// `completed_cmds`.
    pub closed spec fn outcomes(self) -> Seq<CmdOutcome> {
        self.outcomes@
    }

    /// The outstanding transaction as a sequence of zero or one commands.
    pub closed spec fn in_flight_seq(self) -> Seq<Command> {
        match self.in_flight {
            Some(c) => seq![c],
            None => Seq::empty(),
        }
    }

    /// The driver's invariant. The accounting clause is the FIFO heart:
    /// everything ever submitted is exactly the completed commands, then
    /// the in-flight one, then the pending queue, in that order.
    pub closed spec fn wf(self) -> bool {
        &&& self.bus.kind_spec() == ResourceKind::SerialBus
        &&& self.power.kind_spec() == ResourceKind::PowerPin
        &&& 1 <= self.timeout
        &&& self.state == LinkState::Negotiating ==> self.elapsed < self.timeout
        &&& self.state != LinkState::Ready
                ==> self.in_flight is None && self.pending@.len() == 0
        &&& self.pending@.len() <= CMD_CAPACITY
        &&& self.submitted@ === self.completed@ + self.in_flight_seq() + self.pending@
        &&& self.outcomes@.len() == self.completed@.len()
    }

    /// A fresh driver that has not begun negotiation. It captures the bus
    /// and power-pin handles for good: they are moved in, never given back.
    pub fn new(bus: CapabilityHandle, power: CapabilityHandle, timeout: u64) -> (d: LinkDriver)
        requires
            bus.kind_spec() == ResourceKind::SerialBus,
            power.kind_spec() == ResourceKind::PowerPin,
            timeout >= 1,
        ensures
            d.wf(),
            d.link_state() == LinkState::Uninitialized,
            d.elapsed_val() == 0,
            d.timeout_val() == timeout,
            d.pending_cmds() === Seq::empty(),
            d.in_flight_cmd() is None,
            d.submitted_cmds() === Seq::empty(),
            d.completed_cmds() === Seq::empty(),
            d.outcomes() === Seq::empty(),
    {
        let d = LinkDriver {
            bus,
            power,
            state: LinkState::Uninitialized,
            elapsed: 0,
            timeout,
            pending: Vec::new(),
            in_flight: None,
            submitted: Ghost(Seq::empty()),
            completed: Ghost(Seq::empty()),
            outcomes: Ghost(Seq::empty()),
        };
        proof {
            assert(d.submitted@ =~= d.completed@ + d.in_flight_seq() + d.pending@);
        }
        d
    }

    /// Starts negotiation after the firmware image has been sent over the
    /// bus. Happens once, on hand-off from the resource initializer.
    pub fn begin_negotiation(&mut self)
        requires
            old(self).wf(),
            old(self).link_state() == LinkState::Uninitialized,
        ensures
            final(self).wf(),
            final(self).link_state() == LinkState::Negotiating,
            final(self).elapsed_val() == 0,
            final(self).timeout_val() == old(self).timeout_val(),
            final(self).pending_cmds() === old(self).pending_cmds(),
            final(self).in_flight_cmd() === old(self).in_flight_cmd(),
            final(self).submitted_cmds() === old(self).submitted_cmds(),
            final(self).completed_cmds() === old(self).completed_cmds(),
            final(self).outcomes() === old(self).outcomes(),
    {
        self.state = LinkState::Negotiating;
        self.elapsed = 0;
    }

    /// Consumes the handshake acknowledgment.
    ///
    /// A well-formed acknowledgment makes the driver `Ready`. A malformed
    /// one is a fatal negotiation failure: the driver degrades and reports
    /// exactly one `NegotiationFailed` diagnostic, never to look
    /// operational again.
    pub fn handshake_ack(&mut self, well_formed: bool) -> (report: Option<LogEntry>)
        requires
            old(self).wf(),
            old(self).link_state() == LinkState::Negotiating,
        ensures
            final(self).wf(),
            well_formed ==> {
                &&& final(self).link_state() == LinkState::Ready
                &&& report is None
            },
            !well_formed ==> {
                &&& final(self).link_state() == LinkState::Degraded
                &&& report === Some(LogEntry::NegotiationFailed)
            },
            final(self).timeout_val() == old(self).timeout_val(),
            final(self).pending_cmds() === old(self).pending_cmds(),
            final(self).in_flight_cmd() === old(self).in_flight_cmd(),
            final(self).submitted_cmds() === old(self).submitted_cmds(),
            final(self).completed_cmds() === old(self).completed_cmds(),
            final(self).outcomes() === old(self).outcomes(),
    {
        if well_formed {
            self.state = LinkState::Ready;
            None
        } else {
            self.state = LinkState::Degraded;
            Some(LogEntry::NegotiationFailed)
        }
    }

    /// One poll of an unacknowledged handshake, as a pure state change:
    /// either one more poll of patience, or — when the configured timeout
    /// is used up — the transition to `Degraded`.
    pub closed spec fn tick_spec(self) -> LinkDriver {
        if self.state == LinkState::Negotiating {
            if self.elapsed + 1 < self.timeout {
                LinkDriver { elapsed: (self.elapsed + 1) as u64, ..self }
            } else {
                LinkDriver { state: LinkState::Degraded, ..self }
            }
        } else {
            self
        }
    }

    /// One poll that found no handshake acknowledgment yet.
    ///
    /// Counts against the configured timeout; when the budget is spent the
    /// driver deterministically degrades and reports exactly one
    /// `NegotiationFailed` diagnostic.
    pub fn handshake_tick(&mut self) -> (report: Option<LogEntry>)
        requires
            old(self).wf(),
            old(self).link_state() == LinkState::Negotiating,
        ensures
            final(self).wf(),
            *final(self) === old(self).tick_spec(),
            old(self).elapsed_val() + 1 < old(self).timeout_val() ==> {
                &&& final(self).link_state() == LinkState::Negotiating
                &&& final(self).elapsed_val() == old(self).elapsed_val() + 1
                &&& report is None
            },
            old(self).elapsed_val() + 1 >= old(self).timeout_val() ==> {
                &&& final(self).link_state() == LinkState::Degraded
                &&& report === Some(LogEntry::NegotiationFailed)
            },
            final(self).timeout_val() == old(self).timeout_val(),
            final(self).pending_cmds() === old(self).pending_cmds(),
            final(self).in_flight_cmd() === old(self).in_flight_cmd(),
            final(self).submitted_cmds() === old(self).submitted_cmds(),
            final(self).completed_cmds() === old(self).completed_cmds(),
            final(self).outcomes() === old(self).outcomes(),
    {
        if self.elapsed + 1 < self.timeout {
            self.elapsed = self.elapsed + 1;
            None
        } else {
            self.state = LinkState::Degraded;
            Some(LogEntry::NegotiationFailed)
        }
    }

    /// What `submit` answers, as a function of the driver's state alone:
    /// accepted exactly when the driver is `Ready` with queue room; a
    /// degraded driver refuses with `Degraded`, a driver still negotiating
    /// refuses with `NotReady`, a full queue refuses with `QueueFull`.
    pub open spec fn submit_outcome(self, c: Command) -> Result<(), SubmitError> {
        if self.link_state() == LinkState::Degraded {
            Err(SubmitError::Degraded)
        } else if self.link_state() != LinkState::Ready {
            Err(SubmitError::NotReady)
        } else if self.pending_cmds().len() >= CMD_CAPACITY {
            Err(SubmitError::QueueFull)
        } else {
            Ok(())
        }
    }

    /// The control facade: submits one typed command for servicing.
    ///
    /// Returns immediately in every state — a submission never blocks. It
    /// is accepted if and only if the driver is `Ready` and the queue has
    /// room; an accepted command enters the queue behind every earlier one
    /// and will be serviced in exactly that order.
    pub fn submit(&mut self, c: Command) -> (r: Result<(), SubmitError>)
        requires
            old(self).wf(),
        ensures
            final(self).wf(),
            r === old(self).submit_outcome(c),
            old(self).link_state() == LinkState::Degraded ==> {
                &&& r === Err(SubmitError::Degraded)
                &&& *final(self) === *old(self)
            },
            old(self).link_state() == LinkState::Uninitialized
                || old(self).link_state() == LinkState::Negotiating ==> {
                &&& r === Err(SubmitError::NotReady)
                &&& *final(self) === *old(self)
            },
            old(self).link_state() == LinkState::Ready
                && old(self).pending_cmds().len() >= CMD_CAPACITY ==> {
                &&& r === Err(SubmitError::QueueFull)
                &&& *final(self) === *old(self)
            },
            old(self).link_state() == LinkState::Ready
                && old(self).pending_cmds().len() < CMD_CAPACITY ==> {
                &&& r === Ok::<(), SubmitError>(())
                &&& final(self).pending_cmds() === old(self).pending_cmds().push(c)
                &&& final(self).submitted_cmds() === old(self).submitted_cmds().push(c)
                &&& final(self).link_state() == old(self).link_state()
                &&& final(self).in_flight_cmd() === old(self).in_flight_cmd()
                &&& final(self).completed_cmds() === old(self).completed_cmds()
                &&& final(self).outcomes() === old(self).outcomes()
            },
    {
        match self.state {
            LinkState::Degraded => Err(SubmitError::Degraded),
            LinkState::Uninitialized => Err(SubmitError::NotReady),
            LinkState::Negotiating => Err(SubmitError::NotReady),
            LinkState::Ready => {
                if self.pending.len() >= CMD_CAPACITY {
                    Err(SubmitError::QueueFull)
                } else {
                    self.pending.push(c);
                    proof {
                        assert(self.submitted@.push(c)
                            =~= self.completed@ + self.in_flight_seq() + self.pending@);
                    }
                    self.submitted = Ghost(self.submitted@.push(c));
                    Ok(())
                }
            },
        }
    }

    /// Facade convenience: submit "set pin `index` to `level`".
    pub fn set_pin(&mut self, index: u8, level: bool) -> (r: Result<(), SubmitError>)
        requires
            old(self).wf(),
        ensures
            final(self).wf(),
            r === old(self).submit_outcome((Command::SetPin { index, level })),
            r is Ok ==> {
                &&& final(self).pending_cmds()
                        === old(self).pending_cmds().push((Command::SetPin { index, level }))
                &&& final(self).submitted_cmds()
                        === old(self).submitted_cmds().push((Command::SetPin { index, level }))
                &&& final(self).link_state() == old(self).link_state()
                &&& final(self).in_flight_cmd() === old(self).in_flight_cmd()
                &&& final(self).completed_cmds() === old(self).completed_cmds()
                &&& final(self).outcomes() === old(self).outcomes()
            },
            r is Err ==> *final(self) === *old(self),
    {
        self.submit(Command::SetPin { index, level })
    }

    /// Facade convenience: submit "switch to power mode `mode`".
    pub fn set_power_mode(&mut self, mode: PowerMode) -> (r: Result<(), SubmitError>)
        requires
            old(self).wf(),
        ensures
            final(self).wf(),
            r === old(self).submit_outcome((Command::SetPowerMode { mode })),
            r is Ok ==> {
                &&& final(self).pending_cmds()
                        === old(self).pending_cmds().push((Command::SetPowerMode { mode }))
                &&& final(self).submitted_cmds()
                        === old(self).submitted_cmds().push((Command::SetPowerMode { mode }))
                &&& final(self).link_state() == old(self).link_state()
                &&& final(self).in_flight_cmd() === old(self).in_flight_cmd()
                &&& final(self).completed_cmds() === old(self).completed_cmds()
                &&& final(self).outcomes() === old(self).outcomes()
            },
            r is Err ==> *final(self) === *old(self),
    {
        self.submit(Command::SetPowerMode { mode })
    }

    /// Takes the oldest pending command to the bus.
    ///
    /// Starts a transaction exactly when the driver is `Ready`, no
    /// transaction is already outstanding, and a command is pending; the
    /// exclusive bus handle makes a second concurrent transaction
    /// impossible, and this contract says so: nothing starts while
    /// `in_flight_cmd` is occupied.
    pub fn begin_transaction(&mut self) -> (c: Option<Command>)
        requires
            old(self).wf(),
        ensures
            final(self).wf(),
            old(self).link_state() == LinkState::Ready && old(self).in_flight_cmd() is None
                && old(self).pending_cmds().len() > 0 ==> {
                &&& c === Some(old(self).pending_cmds()[0])
                &&& final(self).in_flight_cmd() === Some(old(self).pending_cmds()[0])
                &&& final(self).pending_cmds() === old(self).pending_cmds().skip(1)
                &&& final(self).link_state() == old(self).link_state()
                &&& final(self).submitted_cmds() === old(self).submitted_cmds()
                &&& final(self).completed_cmds() === old(self).completed_cmds()
                &&& final(self).outcomes() === old(self).outcomes()
            },
            !(old(self).link_state() == LinkState::Ready && old(self).in_flight_cmd() is None
                && old(self).pending_cmds().len() > 0) ==> {
                &&& c is None
                &&& *final(self) === *old(self)
            },
    {
        let ready = match self.state {
            LinkState::Ready => true,
            _ => false,
        };
        if ready && self.in_flight.is_none() && self.pending.len() > 0 {
            let cmd = self.pending.remove(0);
            self.in_flight = Some(cmd);
            proof {
                assert(old(self).pending@ =~= seq![cmd] + self.pending@);
                assert(self.submitted@
                    =~= self.completed@ + self.in_flight_seq() + self.pending@);
            }
            Some(cmd)
        } else {
            None
        }
    }

    /// Closes the outstanding bus transaction with the round-trip's
    /// outcome, handed in by the caller that performed the transfer.
    ///
    /// The serviced command and its response — `Ack` on success, a
    /// `TransientFailure` reported back to the submitter otherwise — are
    /// returned for delivery. A failed round-trip affects only this one
    /// command: the driver stays `Ready` and services the rest.
    pub fn complete_transaction(&mut self, bus_ok: bool) -> (r: Option<(Command, CmdOutcome)>)
        requires
            old(self).wf(),
        ensures
            final(self).wf(),
            old(self).in_flight_cmd() matches Some(cmd) ==> {
                &&& r === Some((cmd, if bus_ok {
                        CmdOutcome::Ack
                    } else {
                        CmdOutcome::TransientFailure
                    }))
                &&& final(self).in_flight_cmd() is None
                &&& final(self).completed_cmds() === old(self).completed_cmds().push(cmd)
                &&& final(self).outcomes() === old(self).outcomes().push(if bus_ok {
                        CmdOutcome::Ack
                    } else {
                        CmdOutcome::TransientFailure
                    })
                &&& final(self).link_state() == old(self).link_state()
                &&& final(self).pending_cmds() === old(self).pending_cmds()
                &&& final(self).submitted_cmds() === old(self).submitted_cmds()
            },
            old(self).in_flight_cmd() is None ==> {
                &&& r is None
                &&& *final(self) === *old(self)
            },
    {
        match self.in_flight {
            Some(cmd) => {
                let outcome = if bus_ok {
                    CmdOutcome::Ack
                } else {
                    CmdOutcome::TransientFailure
                };
                self.in_flight = None;
                self.completed = Ghost(self.completed@.push(cmd));
                self.outcomes = Ghost(self.outcomes@.push(outcome));
                proof {
                    assert(self.submitted@
                        =~= self.completed@ + self.in_flight_seq() + self.pending@);
                }
                Some((cmd, outcome))
            },
            None => None,
        }
    }
}

/// Closes the outstanding transaction and, when it succeeded, records its
/// diagnostic entry in the log queue, so that the sink observes serviced
/// commands in exactly the order their submitters got their responses.
pub fn complete_and_log(d: &mut LinkDriver, q: &mut LogQueue, bus_ok: bool) -> (r: Option<
    (Command, CmdOutcome)>)
    requires
        old(d).wf(),
        old(q).wf(),
    ensures
        final(d).wf(),
        final(q).wf(),
        r == match old(d).in_flight_cmd() {
            Some(cmd) => Some((cmd, if bus_ok {
                CmdOutcome::Ack
            } else {
                CmdOutcome::TransientFailure
            })),
            None => None::<(Command, CmdOutcome)>,
        },
        old(d).in_flight_cmd() matches Some(cmd) ==> {
            &&& final(d).in_flight_cmd() is None
            &&& final(d).completed_cmds() === old(d).completed_cmds().push(cmd)
            &&& final(d).link_state() == old(d).link_state()
            &&& final(d).pending_cmds() === old(d).pending_cmds()
            &&& final(d).submitted_cmds() === old(d).submitted_cmds()
            &&& final(q).history() === if bus_ok {
                    old(q).history().push(entry_for(cmd))
                } else {
                    old(q).history()
                }
        },
        old(d).in_flight_cmd() is None ==> {
            &&& *final(d) === *old(d)
            &&& *final(q) === *old(q)
        },
{
    match d.complete_transaction(bus_ok) {
        Some((cmd, outcome)) => {
            if bus_ok {
                let e = match cmd {
                    Command::SetPin { index, level } => LogEntry::PinSet { index, level },
                    Command::SetPowerMode { mode } => LogEntry::PowerModeSet {
                        saving: match mode {
                            PowerMode::PowerSave => true,
                            PowerMode::Performance => false,
                        },
                    },
                };
                q.push(e);
            }
            Some((cmd, outcome))
        },
        None => None,
    }
}

/// Responses keep submission order: at every moment the commands serviced
/// to completion are exactly the first `completed_cmds().len()` commands
/// ever submitted, in the same order. No response ever overtakes an
/// earlier submission.
pub proof fn lemma_responses_in_submission_order(d: &LinkDriver)
    requires
        d.wf(),
    ensures
        d.completed_cmds().len() <= d.submitted_cmds().len(),
        d.completed_cmds() === d.submitted_cmds().take(d.completed_cmds().len() as int),
        forall|i: int| 0 <= i < d.completed_cmds().len()
            ==> d.completed_cmds()[i] == d.submitted_cmds()[i],
{
    assert(d.submitted_cmds().take(d.completed_cmds().len() as int) =~= d.completed_cmds());
}

/// The driver's state after `n` unacknowledged polls.
pub open spec fn after_ticks(d: LinkDriver, n: nat) -> LinkDriver
    decreases n,
{
    if n == 0 {
        d
    } else {
        after_ticks(d.tick_spec(), (n - 1) as nat)
    }
}

/// `Degraded` is absorbing: no amount of further polling leaves it.
pub proof fn lemma_degraded_is_absorbing(d: LinkDriver, n: nat)
    requires
        d.link_state() == LinkState::Degraded,
    ensures
        after_ticks(d, n) === d,
    decreases n,
{
    if n > 0 {
        lemma_degraded_is_absorbing(d.tick_spec(), (n - 1) as nat);
    }
}

/// A degraded driver refuses every submission immediately with the
/// `Degraded` failure — it never hangs and never silently succeeds.
pub proof fn lemma_degraded_rejects_all(d: LinkDriver, c: Command)
    requires
        d.link_state() == LinkState::Degraded,
    ensures
        d.submit_outcome(c) === Err(SubmitError::Degraded),
{
}

/// A handshake that is never acknowledged within the configured timeout
/// deterministically drives the driver to `Degraded`, after which every
/// command submission is answered immediately with the `Degraded` failure.
pub proof fn lemma_timeout_drives_degraded(d: LinkDriver, n: nat)
    requires
        d.wf(),
        d.link_state() == LinkState::Negotiating,
        n + d.elapsed_val() >= d.timeout_val(),
    ensures
        after_ticks(d, n).link_state() == LinkState::Degraded,
        forall|c: Command| #[trigger] after_ticks(d, n).submit_outcome(c)
            === Err(SubmitError::Degraded),
    decreases n,
{
    let d1 = d.tick_spec();
    if d.elapsed_val() + 1 < d.timeout_val() {
        lemma_timeout_drives_degraded(d1, (n - 1) as nat);
    } else {
        lemma_degraded_is_absorbing(d1, (n - 1) as nat);
    }
}

} // verus!
