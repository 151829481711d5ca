//! Diagnostic records of what the engine saw and did.

use crate::input::Direction;
use crate::input::Injection;
use vstd::prelude::*;

verus! {

/// What one diagnostic record reports.
#[derive(Debug, Clone, Copy, PartialEq, Eq)]
pub enum TraceEvent {
    /// An event entered the engine: genuine input, or synthesized output
    /// that came back.
    Input { injected: bool, scan_code: u32, virt_code: u32, direction: Direction },
    /// The engine asked for a key event to be synthesized.
    Sending { injection: Injection },
    /// The event that entered was kept from the rest of the system.
    Blocked { virt_code: u32, direction: Direction },
}

/// A diagnostic record: its running number, its depth, and what it reports.
#[derive(Debug, Clone, Copy, PartialEq, Eq)]
pub struct TraceRecord {
    pub number: u32,
    pub indent: u32,
    pub event: TraceEvent,
}

/// The number that is `records` records after `counter`. Numbers start
/// again at zero after the largest.
pub open spec fn number_after(counter: u32, records: int) -> u32 {
    ((counter + records) % 0x1_0000_0000) as u32
}

/// The number that follows `counter`.
pub fn next_number(counter: u32) -> (next: u32)
    ensures
        next == number_after(counter, 1),
{
    counter.wrapping_add(1)
}

/// The record of the event that entered.
pub open spec fn input_record(
    number: u32,
    scan_code: u32,
    virt_code: u32,
    direction: Direction,
    is_injected: bool,
) -> TraceRecord {
    TraceRecord {
        number,
        indent: 0,
        event: TraceEvent::Input { injected: is_injected, scan_code, virt_code, direction },
    }
}

/// The record of one synthesized event.
pub open spec fn sending_record(number: u32, injection: Injection) -> TraceRecord {
    TraceRecord { number, indent: 1, event: TraceEvent::Sending { injection } }
}

/// The record of a blocked event.
pub open spec fn blocked_record(number: u32, virt_code: u32, direction: Direction) -> TraceRecord {
    TraceRecord { number, indent: 0, event: TraceEvent::Blocked { virt_code, direction } }
}

/// The records of `injections`, numbered from `counter` on.
pub open spec fn sending_records(counter: u32, injections: Seq<Injection>) -> Seq<TraceRecord> {
    Seq::new(
        injections.len(),
        |k: int| sending_record(number_after(counter, k), injections[k]),
    )
}

/// The records of one event, numbered from `counter` on: the event itself,
/// one record below it for each synthesized event, and a last one where the
/// event was blocked.
pub open spec fn input_trace(
    counter: u32,
    scan_code: u32,
    virt_code: u32,
    direction: Direction,
    is_injected: bool,
    injections: Seq<Injection>,
    block: bool,
) -> Seq<TraceRecord> {
    let entry = seq![input_record(counter, scan_code, virt_code, direction, is_injected)];
    let sent = sending_records(number_after(counter, 1), injections);
    if block {
        (entry + sent).push(
            blocked_record(number_after(counter, 1 + injections.len() as int), virt_code, direction),
        )
    } else {
        entry + sent
    }
}

/// Counting on from a number that was itself counted on.
pub proof fn lemma_number_after_add(counter: u32, a: int, b: int)
    requires
        0 <= a,
        0 <= b,
    ensures
        number_after(number_after(counter, a), b) == number_after(counter, a + b),
        number_after(counter, 0) == counter,
{
    assert(((counter + a) % 0x1_0000_0000 + b) % 0x1_0000_0000 == (counter + a + b)
        % 0x1_0000_0000) by {
        vstd::arithmetic::div_mod::lemma_add_mod_noop((counter + a) as int, b, 0x1_0000_0000);
        vstd::arithmetic::div_mod::lemma_mod_twice((counter + a) as int, 0x1_0000_0000);
    }
}

} // verus!
