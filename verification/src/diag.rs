//! The bounded diagnostic log queue and the sink task's drain step.
//!
//! Producers enqueue entries from any task; the diagnostic sink task is the
//! sole consumer. The overflow policy is oldest-entry-drop: a push into a
//! full queue evicts the oldest entry and always succeeds, so a producer is
//! never blocked, not even for one retry. Entries that remain in the queue
//! are never reordered: at every moment the queue holds a contiguous,
//! in-order window of everything ever enqueued.

use vstd::prelude::*;
use crate::resource::{CapabilityHandle, ResourceKind};

verus! {

/// How many entries the log queue holds before the oldest is dropped.
pub const LOG_CAPACITY: usize = 16;

/// One diagnostic record, as plain values; the wire format the transport
/// gives these is not the core's business.
#[derive(Clone, Copy, PartialEq, Eq, Structural, Debug)]
pub enum LogEntry {
    /// The link driver gave up on the handshake; exactly one of these is
    /// reported per failed negotiation.
    NegotiationFailed,
    /// A companion-chip pin was driven to a level.
    PinSet { index: u8, level: bool },
    /// The co-processor's power mode was changed.
    PowerModeSet { saving: bool },
}

/// The bounded FIFO of pending diagnostic entries.
pub struct LogQueue {
    entries: Vec<LogEntry>,
    /// Everything ever enqueued, in order, including entries since dropped
    /// by overflow or drained by the sink.
    history: Ghost<Seq<LogEntry>>,
}

impl LogQueue {
    /// The pending entries, oldest first.
    pub closed spec fn contents(self) -> Seq<LogEntry> {
        self.entries@
    }

    /// Every entry ever enqueued, in order.
    pub closed spec fn history(self) -> Seq<LogEntry> {
        self.history@
    }

    /// Where the pending window starts inside the history.
    pub open spec fn window_start(self) -> int {
        self.history().len() - self.contents().len()
    }

    /// The queue is within capacity and holds exactly the most recent
    /// window of the enqueue history.
    pub closed spec fn wf(self) -> bool {
        &&& self.entries@.len() <= LOG_CAPACITY
        &&& self.entries@.len() <= self.history@.len()
        &&& self.entries@ === self.history@.skip(self.history@.len() - self.entries@.len())
    }

    /// An empty queue with an empty history.
    pub fn new() -> (q: LogQueue)
        ensures
            q.wf(),
            q.contents() === Seq::empty(),
            q.history() === Seq::empty(),
    {
        proof {
            assert(Seq::<LogEntry>::empty().skip(0) =~= Seq::<LogEntry>::empty());
        }
        LogQueue { entries: Vec::new(), history: Ghost(Seq::empty()) }
    }

    /// How many entries are pending.
    pub fn len(&self) -> (n: usize)
        ensures
            n == self.contents().len(),
    {
        self.entries.len()
    }

    /// Enqueues one entry; never fails and never blocks the producer.
    ///
    /// Every entry enters the history. If the queue is full the oldest
    /// pending entry is evicted to make room, so the producer succeeds on
    /// its first and only attempt whatever the sink is doing.
    pub fn push(&mut self, e: LogEntry)
        requires
            old(self).wf(),
        ensures
            final(self).wf(),
            final(self).history() === old(self).history().push(e),
            old(self).contents().len() < LOG_CAPACITY
                ==> final(self).contents() === old(self).contents().push(e),
            old(self).contents().len() == LOG_CAPACITY
                ==> final(self).contents() === old(self).contents().skip(1).push(e),
    {
        if self.entries.len() == LOG_CAPACITY {
            self.entries.remove(0);
            proof {
                assert(self.entries@ =~= old(self).entries@.skip(1));
            }
        }
        self.entries.push(e);
        proof {
            let h = self.history@.push(e);
            assert(self.entries@ =~= h.skip(h.len() - self.entries@.len()));
        }
        self.history = Ghost(self.history@.push(e));
    }

    /// Dequeues the oldest pending entry, if any; FIFO order.
    pub fn pop(&mut self) -> (r: Option<LogEntry>)
        requires
            old(self).wf(),
        ensures
            final(self).wf(),
            final(self).history() === old(self).history(),
            old(self).contents().len() == 0 ==> {
                &&& r is None
                &&& final(self).contents() === old(self).contents()
            },
            old(self).contents().len() > 0 ==> {
                &&& r === Some(old(self).contents()[0])
                &&& final(self).contents() === old(self).contents().skip(1)
            },
    {
        if self.entries.len() == 0 {
            None
        } else {
            let e = self.entries.remove(0);
            proof {
                assert(self.entries@ =~= old(self).entries@.skip(1));
                assert(self.entries@
                    =~= self.history@.skip(self.history@.len() - self.entries@.len()));
            }
            Some(e)
        }
    }
}

/// The diagnostic sink task's state: sole consumer of the log queue and
/// sole owner of the diagnostic transport endpoint.
pub struct DiagSink {
    transport: CapabilityHandle,
}

impl DiagSink {
    /// The sink really holds the transport endpoint's handle.
    pub closed spec fn wf(self) -> bool {
        self.transport.kind_spec() == ResourceKind::DiagEndpoint
    }

    /// Builds the sink around the transport handle, which is moved in for
    /// the rest of the process lifetime.
    pub fn new(transport: CapabilityHandle) -> (s: DiagSink)
        requires
            transport.kind_spec() == ResourceKind::DiagEndpoint,
        ensures
            s.wf(),
    {
        DiagSink { transport }
    }

    /// One step of the sink task: take the oldest pending entry and offer
    /// it to the transport, whose verdict the caller hands in.
    ///
    /// Returns the entry that was delivered, or `None` when the queue was
    /// empty or the transport refused it. A transport failure is swallowed
    /// — the entry is lost, nothing is escalated, and the sink simply moves
    /// on to the next entry — because diagnostics are best-effort and must
    /// never take the application down with them.
    pub fn drain_one(&self, q: &mut LogQueue, transport_ok: bool) -> (delivered: Option<
        LogEntry>)
        requires
            self.wf(),
            old(q).wf(),
        ensures
            final(q).wf(),
            final(q).history() === old(q).history(),
            old(q).contents().len() == 0 ==> {
                &&& delivered is None
                &&& final(q).contents() === old(q).contents()
            },
            old(q).contents().len() > 0 ==> {
                &&& final(q).contents() === old(q).contents().skip(1)
                &&& delivered == if transport_ok {
                        Some(old(q).contents()[0])
                    } else {
                        None::<LogEntry>
                    }
            },
    {
        match q.pop() {
            Some(e) => if transport_ok {
                Some(e)
            } else {
                None
            },
            None => None,
        }
    }
}

/// Entries that were successfully enqueued are never reordered: the pending
/// queue is always a contiguous, in-order window of the enqueue history, so
/// the sink drains entries in exactly the order producers enqueued them.
pub proof fn lemma_no_reorder(q: &LogQueue)
    requires
        q.wf(),
    ensures
        0 <= q.window_start() <= q.history().len(),
        forall|i: int| 0 <= i < q.contents().len()
            ==> q.contents()[i] == q.history()[q.window_start() + i],
{
}

} // verus!
