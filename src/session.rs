//! Decisions of the receive loops, apart from the I/O they drive.
use vstd::prelude::*;

verus! {

/// What one blocking socket receive gave.
#[derive(Clone, Copy, Debug, PartialEq, Eq, Structural)]
pub enum RecvOutcome {
    Datagram,
    TimedOut,
    Failed,
}

#[derive(Clone, Copy, Debug, PartialEq, Eq, Structural)]
pub enum RecvStep {
    /// Decode the datagram, then receive again.
    Decode,
    /// Nothing arrived in time: receive again.
    Repoll,
    /// A receive error ends the loop with a failure.
    Stop,
}

pub open spec fn recv_step(o: RecvOutcome) -> RecvStep {
    match o {
        RecvOutcome::Datagram => RecvStep::Decode,
        RecvOutcome::TimedOut => RecvStep::Repoll,
        RecvOutcome::Failed => RecvStep::Stop,
    }
}

pub fn on_receive(o: RecvOutcome) -> (s: RecvStep)
    ensures
        s == recv_step(o),
{
    match o {
        RecvOutcome::Datagram => RecvStep::Decode,
        RecvOutcome::TimedOut => RecvStep::Repoll,
        RecvOutcome::Failed => RecvStep::Stop,
    }
}

/// How a run of socket receives ended.
#[derive(Clone, Copy, Debug, PartialEq, Eq, Structural)]
pub struct RecvSummary {
    /// Receives taken, up to and including the one that stopped the loop.
    pub consumed: usize,
    pub datagrams: usize,
    pub failures: usize,
}

pub open spec fn first_failure(events: Seq<RecvOutcome>, i: int) -> bool {
    0 <= i < events.len() && events[i] == RecvOutcome::Failed && forall|j: int|
        0 <= j < i ==> events[j] != RecvOutcome::Failed
}

pub open spec fn count_datagrams(events: Seq<RecvOutcome>) -> nat
    decreases events.len(),
{
    if events.len() == 0 {
        0
    } else {
        count_datagrams(events.drop_last()) + (if events.last() == RecvOutcome::Datagram {
            1nat
        } else {
            0nat
        })
    }
}

/// Runs the receive decisions over a sequence of outcomes: timeouts are
/// passed over, and the first failure ends the run as its one failure.
pub fn run_receives(events: &Vec<RecvOutcome>) -> (r: RecvSummary)
    ensures
        r.failures <= 1,
        r.failures == 1 <==> exists|i: int| first_failure(events@, i),
        forall|i: int| first_failure(events@, i) ==> r.consumed == i + 1,
        r.failures == 0 ==> r.consumed == events@.len(),
        r.datagrams == count_datagrams(events@.take(r.consumed as int)),
{
    let mut i: usize = 0;
    let mut datagrams: usize = 0;
    while i < events.len()
        invariant
            i <= events@.len(),
            datagrams == count_datagrams(events@.take(i as int)),
            datagrams <= i,
            forall|j: int| 0 <= j < i ==> events@[j] != RecvOutcome::Failed,
        decreases events@.len() - i,
    {
        let step = on_receive(events[i]);
        proof {
            assert(events@.take(i as int + 1).drop_last() =~= events@.take(i as int));
        }
        match step {
            RecvStep::Stop => {
                assert(first_failure(events@, i as int));
                proof {
                    assert forall|k: int| first_failure(events@, k) implies k == i by {
                        if k < i {
                        } else if k > i {
                            assert(events@[i as int] == RecvOutcome::Failed);
                        }
                    }
                }
                return RecvSummary { consumed: i + 1, datagrams, failures: 1 };
            },
            RecvStep::Decode => {
                datagrams = datagrams + 1;
            },
            RecvStep::Repoll => {},
        }
        i = i + 1;
    }
    assert(events@.take(i as int) =~= events@);
    RecvSummary { consumed: i, datagrams, failures: 0 }
}

/// What one read from a stored capture gave.
#[derive(Clone, Copy, Debug, PartialEq, Eq, Structural)]
pub enum ReadOutcome {
    Packet,
    EndOfData,
    Incomplete,
    Failed,
}

#[derive(Clone, Copy, Debug, PartialEq, Eq, Structural)]
pub enum ReadStep {
    /// Decode the packet and read on.
    Process,
    /// The capture ended cleanly.
    Finish,
    /// Refill the read buffer and try again.
    Refill,
    /// A read error, or too many refills in a row: stop with a failure.
    Abort,
}

pub open spec fn read_step(o: ReadOutcome, refills_in_a_row: u32, max_refills: u32) -> ReadStep {
    match o {
        ReadOutcome::Packet => ReadStep::Process,
        ReadOutcome::EndOfData => ReadStep::Finish,
        ReadOutcome::Incomplete => if refills_in_a_row < max_refills {
            ReadStep::Refill
        } else {
            ReadStep::Abort
        },
        ReadOutcome::Failed => ReadStep::Abort,
    }
}

/// Decides what follows a capture read; `refills_in_a_row` counts the
/// refills since the last packet, which `max_refills` bounds.
pub fn on_read(o: ReadOutcome, refills_in_a_row: u32, max_refills: u32) -> (s: ReadStep)
    ensures
        s == read_step(o, refills_in_a_row, max_refills),
{
    match o {
        ReadOutcome::Packet => ReadStep::Process,
        ReadOutcome::EndOfData => ReadStep::Finish,
        ReadOutcome::Incomplete => if refills_in_a_row < max_refills {
            ReadStep::Refill
        } else {
            ReadStep::Abort
        },
        ReadOutcome::Failed => ReadStep::Abort,
    }
}

} // verus!
