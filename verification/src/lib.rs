//! Cooperative scheduling and shared-hardware-resource ownership core.
//!
//! A single-core, non-preemptive executor model for a board that brings up a
//! wireless co-processor over a serial bus while running a diagnostic log
//! sink and an application loop. The library holds the logic worth proving:
//! exclusive capability handles for singleton hardware resources, the task
//! table and round-robin resumption policy, the link driver's negotiation
//! state machine with its command queue, the bounded diagnostic log queue,
//! and the application task's fixed command plan. The hardware itself (pins,
//! bus transfers, timers) lives outside: callers perform the transfers and
//! hand the outcomes back in as plain values.

pub mod diag;
pub mod link;
pub mod plan;
pub mod resource;
pub mod sched;
