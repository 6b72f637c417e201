use vstd::prelude::*;

verus! {

/// Nanoseconds per millisecond, the unit step of timestamps at the multiplexer.
pub const NANOS_PER_MS: u64 = 1_000_000;

/// Relies on `num_cpus::get`: the number of CPUs available to this process, documented
/// to be at least 1. It depends on the machine.
#[verifier::external_body]
fn available_cpus() -> (r: usize)
    ensures
        r >= 1,
{
    num_cpus::get()
}

/// Converter threads for a machine with `cpus` CPUs: one per CPU but one, and at least one.
pub fn converter_count_for(cpus: usize) -> (r: usize)
    ensures
        r == (if cpus < 2 { 2 } else { cpus as int }) - 1,
        r >= 1,
{
    if cpus < 2 {
        1
    } else {
        cpus - 1
    }
}

/// Converter threads for this machine: one per available CPU but one, and at least one.
pub fn converter_count() -> (r: usize)
    ensures
        r >= 1,
{
    converter_count_for(available_cpus())
}

/// Milliseconds in an elapsed time of `secs` seconds and `subsec_millis` milliseconds.
pub fn elapsed_ms(secs: u64, subsec_millis: u32) -> (r: u64)
    requires
        subsec_millis < 1000,
        secs * 1000 + subsec_millis <= u64::MAX,
    ensures
        r == secs * 1000 + subsec_millis,
{
    secs * 1000 + subsec_millis as u64
}

/// A timestamp in milliseconds as the multiplexer takes it, in nanoseconds.
pub fn pts_ns(ms: u64) -> (r: u64)
    requires
        ms * NANOS_PER_MS <= u64::MAX,
    ensures
        r == ms * NANOS_PER_MS,
{
    ms * NANOS_PER_MS
}

/// The producer's numbering of packets: 0, 1, 2, ... in the order of capture.
pub struct Sequencer {
    next: u64,
}

impl Sequencer {
    pub closed spec fn spec_next(&self) -> u64 {
        self.next
    }

    /// A sequencer whose first packet gets number 0.
    pub fn new() -> (r: Self)
        ensures
            r.spec_next() == 0,
    {
        Sequencer { next: 0 }
    }

    /// The number the next packet will get.
    pub fn peek(&self) -> (r: u64)
        ensures
            r == self.spec_next(),
    {
        self.next
    }

    /// Numbers one more packet.
    pub fn next_seq(&mut self) -> (r: u64)
        requires
            old(self).spec_next() < u64::MAX,
        ensures
            r == old(self).spec_next(),
            final(self).spec_next() == old(self).spec_next() + 1,
    {
        let r = self.next;
        self.next = r + 1;
        r
    }
}

} // verus!
