//! Telemetry egress: the queue of worker snapshots that wait to be sent to
//! the supervisor, and the line each is sent as.
//!
//! The queue is bounded and never blocks: when it is full, the oldest
//! snapshot makes room for the newest.

use crate::protocol::error::ProtocolError;
use crate::protocol::framing::SPLIT;
use crate::protocol::json::render;
use crate::protocol::json::rendering;
use crate::state::ReportView;
use crate::state::SendToParentStruct;
use crate::state::Worker;
use crate::state::WorkerView;
use std::collections::VecDeque;
use vstd::prelude::*;

verus! {

/// The number of snapshots a listener's queue holds.
pub const TELEMETRY_CAPACITY: usize = 4096;

/// Seconds to wait before the supervisor is dialled again after it could not
/// be reached.
pub const TELEMETRY_RETRY_SECS: u64 = 120;

/// The local port on which the supervisor takes in reports.
pub const SUPERVISOR_PORT: u16 = 65500;

/// The snapshots that wait to be sent, oldest first.
pub struct TelemetryQueue {
    items: VecDeque<Worker>,
    capacity: usize,
}

/// The views of a list of workers.
pub open spec fn worker_views(workers: Seq<Worker>) -> Seq<WorkerView> {
    Seq::new(workers.len(), |i: int| workers[i]@)
}

impl View for TelemetryQueue {
    type V = Seq<WorkerView>;

    closed spec fn view(&self) -> Seq<WorkerView> {
        worker_views(self.items@)
    }
}

impl TelemetryQueue {
    /// The number of snapshots the queue holds at most.
    pub closed spec fn capacity(&self) -> usize {
        self.capacity
    }

    /// The queue holds no more than its capacity, which is not zero.
    pub closed spec fn wf(&self) -> bool {
        0 < self.capacity && self.items@.len() <= self.capacity
    }

    /// An empty queue for `capacity` snapshots.
    pub fn with_capacity(capacity: usize) -> (q: TelemetryQueue)
        requires
            capacity > 0,
        ensures
            q.wf(),
            q.capacity() == capacity,
            q@ == Seq::<WorkerView>::empty(),
    {
        let q = TelemetryQueue { items: VecDeque::new(), capacity };
        proof {
            assert(worker_views(q.items@) =~= Seq::<WorkerView>::empty());
        }
        q
    }

    /// An empty queue of the usual capacity.
    pub fn new() -> (q: TelemetryQueue)
        ensures
            q.wf(),
            q.capacity() == TELEMETRY_CAPACITY,
            q@ == Seq::<WorkerView>::empty(),
    {
        TelemetryQueue::with_capacity(TELEMETRY_CAPACITY)
    }

    /// The number of snapshots that wait.
    pub fn len(&self) -> (n: usize)
        ensures
            n == self@.len(),
    {
        self.items.len()
    }

    /// Adds a snapshot. If the queue is full, the oldest snapshot is dropped
    /// to make room, and the result says so.
    pub fn push(&mut self, worker: Worker) -> (dropped: bool)
        requires
            old(self).wf(),
        ensures
            final(self).wf(),
            final(self).capacity() == old(self).capacity(),
            dropped == (old(self)@.len() == old(self).capacity()),
            final(self)@ == if dropped {
                old(self)@.skip(1).push(worker@)
            } else {
                old(self)@.push(worker@)
            },
    {
        let ghost before = self.items@;
        let dropped = self.items.len() >= self.capacity;
        if dropped {
            let _ = self.items.pop_front();
        }
        self.items.push_back(worker);
        proof {
            if dropped {
                assert(worker_views(self.items@) =~= worker_views(before).skip(1).push(worker@));
            } else {
                assert(worker_views(self.items@) =~= worker_views(before).push(worker@));
            }
        }
        dropped
    }

    /// Takes out the oldest snapshot.
    pub fn pop(&mut self) -> (r: Option<Worker>)
        requires
            old(self).wf(),
        ensures
            final(self).wf(),
            final(self).capacity() == old(self).capacity(),
            match r {
                Some(w) => old(self)@.len() > 0 && w@ == old(self)@[0] && final(self)@ == old(self)@.skip(1),
                None => old(self)@.len() == 0 && final(self)@ == old(self)@,
            },
    {
        let ghost before = self.items@;
        let r = self.items.pop_front();
        proof {
            if r is Some {
                assert(worker_views(self.items@) =~= worker_views(before).skip(1));
            }
        }
        r
    }
}

/// What [`report_line`] returns, given what the writer makes of the report.
pub open spec fn report_line_spec(written: Option<Seq<u8>>) -> Result<Seq<u8>, ProtocolError> {
    match written {
        Some(text) => Ok(text.push(SPLIT)),
        None => Err(ProtocolError::Unwritable),
    }
}

/// The line that reports `worker` of the listener `name` to the supervisor:
/// the report as JSON, and a newline.
pub fn report_line(name: &str, worker: &Worker) -> (r: Result<Vec<u8>, ProtocolError>)
    ensures
        match r {
            Ok(line) => report_line_spec(
                rendering((ReportView { name: name@, worker: worker@ }).encode()),
            ) == Ok::<Seq<u8>, ProtocolError>(line@),
            Err(e) => report_line_spec(
                rendering((ReportView { name: name@, worker: worker@ }).encode()),
            ) == Err::<Seq<u8>, ProtocolError>(e),
        },
{
    let report = SendToParentStruct { name: String::from_str(name), worker: worker.snapshot() };
    let doc = report.to_json();
    match render(&doc) {
        Ok(mut text) => {
            text.push(SPLIT);
            Ok(text)
        },
        Err(e) => Err(e),
    }
}

} // verus!
