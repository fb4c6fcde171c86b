use coop_core::diag::{DiagSink, LogEntry, LogQueue, LOG_CAPACITY};
use coop_core::resource::ResourceInitializer;

#[test]
fn sink_drains_in_fifo_order() {
    let mut q = LogQueue::new();
    q.push(LogEntry::PinSet { index: 0, level: true });
    q.push(LogEntry::PinSet { index: 0, level: false });
    q.push(LogEntry::PowerModeSet { saving: true });
    assert_eq!(q.pop(), Some(LogEntry::PinSet { index: 0, level: true }));
    assert_eq!(q.pop(), Some(LogEntry::PinSet { index: 0, level: false }));
    assert_eq!(q.pop(), Some(LogEntry::PowerModeSet { saving: true }));
    assert_eq!(q.pop(), None);
}

#[test]
fn overflow_drops_the_oldest_entry() {
    let mut q = LogQueue::new();
    for i in 0..(LOG_CAPACITY as u8) {
        q.push(LogEntry::PinSet { index: i, level: true });
    }
    assert_eq!(q.len(), LOG_CAPACITY);
    // One past capacity: entry 0 is evicted, the newcomer is kept.
    q.push(LogEntry::PinSet { index: 200, level: false });
    assert_eq!(q.len(), LOG_CAPACITY);
    assert_eq!(q.pop(), Some(LogEntry::PinSet { index: 1, level: true }));
}

#[test]
fn producers_never_block() {
    let mut q = LogQueue::new();
    // Far past capacity, every push succeeds on its first attempt.
    for i in 0..100u8 {
        q.push(LogEntry::PinSet { index: i, level: i % 2 == 0 });
    }
    assert_eq!(q.len(), LOG_CAPACITY);
    // What remains is the most recent window, still in order.
    let mut last = None;
    while let Some(LogEntry::PinSet { index, .. }) = q.pop() {
        if let Some(prev) = last {
            assert!(index == prev + 1, "surviving entries must stay in order");
        }
        last = Some(index);
    }
    assert_eq!(last, Some(99));
}

#[test]
fn transport_failure_is_swallowed() {
    let handles = ResourceInitializer::new().claim_all();
    let sink = DiagSink::new(handles.diag);
    let mut q = LogQueue::new();
    q.push(LogEntry::NegotiationFailed);
    q.push(LogEntry::PinSet { index: 0, level: true });
    // The transport refuses the first entry: it is lost, nothing escalates.
    assert_eq!(sink.drain_one(&mut q, false), None);
    // The sink simply carries on with the next entry.
    assert_eq!(
        sink.drain_one(&mut q, true),
        Some(LogEntry::PinSet { index: 0, level: true })
    );
    assert_eq!(sink.drain_one(&mut q, true), None);
}
