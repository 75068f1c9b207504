//! The upstream side: which pool address to dial next, which requests are
//! in flight on a connection, and who is to hear of a job.
//!
//! Every request written to a pool carries an id of the connection's own,
//! because the ids of different miners collide. The table of requests in
//! flight leads from that id back to the session and to the id the miner
//! chose.

use crate::fee::Route;
use crate::protocol::error::ProtocolError;
use crate::protocol::json::document;
use crate::protocol::json::parse;
use crate::protocol::message::AnyAckView;
use crate::protocol::message::copy_list;
use crate::protocol::message::Job;
use crate::protocol::message::Message;
use crate::protocol::message::MessageView;
use crate::protocol::message::PlainJobView;
use crate::protocol::message::Acknowledgement;
use vstd::prelude::*;

verus! {

/// Seconds after which a request without an answer is given up.
pub const STALE_AFTER: u64 = 60;

/// The first pause after every address has failed, in seconds.
pub const BACKOFF_START: u64 = 5;

/// The longest pause between two rounds of dialling, in seconds.
pub const BACKOFF_MAX: u64 = 120;

/// What to do next to get a connection.
#[derive(Debug, Clone, Copy, PartialEq, Eq, Structural)]
pub enum Step {
    /// Dial the address at this position.
    Dial(usize),
    /// Every address has failed: pause for this many seconds, then dial the
    /// first address again.
    Pause(u64),
    /// There is no address to dial.
    GiveUp,
}

/// The pause that follows a pause of `delay` seconds.
pub open spec fn next_delay(delay: u64) -> u64 {
    if delay >= BACKOFF_MAX / 2 {
        BACKOFF_MAX
    } else {
        (2 * delay) as u64
    }
}

/// Chooses the address to dial: each in turn, and after a round without
/// success a pause that doubles from round to round up to a bound.
#[derive(Debug, Clone, Copy, PartialEq, Eq)]
pub struct Dialer {
    count: usize,
    cursor: usize,
    delay: u64,
}

impl Dialer {
    /// The number of addresses.
    pub closed spec fn count(&self) -> usize {
        self.count
    }

    /// The position of the address dialled last.
    pub closed spec fn cursor(&self) -> usize {
        self.cursor
    }

    /// The pause that the next fruitless round ends with.
    pub closed spec fn delay(&self) -> u64 {
        self.delay
    }

    /// The cursor is a position and the pause is within its bounds.
    pub closed spec fn wf(&self) -> bool {
        &&& self.cursor < self.count || self.count == 0 && self.cursor == 0
        &&& BACKOFF_START <= self.delay <= BACKOFF_MAX
    }

    /// A dialer for `count` addresses, about to dial the first.
    pub closed spec fn new_spec(count: usize) -> Dialer {
        Dialer { count, cursor: 0, delay: BACKOFF_START }
    }

    /// A dialer for `count` addresses, about to dial the first.
    pub fn new(count: usize) -> (d: Dialer)
        ensures
            d == Dialer::new_spec(count),
            d.wf(),
            d.count() == count,
            d.cursor() == 0,
            d.delay() == BACKOFF_START,
    {
        Dialer { count, cursor: 0, delay: BACKOFF_START }
    }

    /// The step that opens a connection: the address under the cursor.
    pub fn start(&self) -> (s: Step)
        requires
            self.wf(),
        ensures
            s == if self.count() == 0 {
                Step::GiveUp
            } else {
                Step::Dial(self.cursor())
            },
    {
        if self.count == 0 {
            Step::GiveUp
        } else {
            Step::Dial(self.cursor)
        }
    }

    /// The address under the cursor could not be reached.
    ///
    /// The next address is dialled at once; after the last one comes a
    /// pause, which is twice the one before and at most [`BACKOFF_MAX`].
    pub fn failed(&mut self) -> (s: Step)
        requires
            old(self).wf(),
        ensures
            final(self).wf(),
            final(self).count() == old(self).count(),
            old(self).count() == 0 ==> s == Step::GiveUp && *final(self) == *old(self),
            old(self).count() > 0 && old(self).cursor() + 1 < old(self).count() ==> s
                == Step::Dial((old(self).cursor() + 1) as usize) && final(self).cursor()
                == old(self).cursor() + 1 && final(self).delay() == old(self).delay(),
            old(self).count() > 0 && old(self).cursor() + 1 == old(self).count() ==> s
                == Step::Pause(old(self).delay()) && final(self).cursor() == 0
                && final(self).delay() == next_delay(old(self).delay()),
    {
        if self.count == 0 {
            Step::GiveUp
        } else if self.cursor + 1 < self.count {
            self.cursor = self.cursor + 1;
            Step::Dial(self.cursor)
        } else {
            let pause = self.delay;
            self.cursor = 0;
            self.delay = if pause >= BACKOFF_MAX / 2 {
                BACKOFF_MAX
            } else {
                2 * pause
            };
            Step::Pause(pause)
        }
    }

    /// A connection stands: the next trouble starts with the shortest pause
    /// again.
    pub fn connected(&mut self)
        requires
            old(self).wf(),
        ensures
            final(self).wf(),
            final(self).count() == old(self).count(),
            final(self).cursor() == old(self).cursor(),
            final(self).delay() == BACKOFF_START,
    {
        self.delay = BACKOFF_START;
    }

    /// The connection was lost: dial again at once, from the first address.
    pub fn dropped(&mut self) -> (s: Step)
        requires
            old(self).wf(),
        ensures
            final(self).wf(),
            final(self).count() == old(self).count(),
            final(self).cursor() == 0,
            final(self).delay() == BACKOFF_START,
            s == if old(self).count() == 0 {
                Step::GiveUp
            } else {
                Step::Dial(0)
            },
    {
        self.cursor = 0;
        self.delay = BACKOFF_START;
        if self.count == 0 {
            Step::GiveUp
        } else {
            Step::Dial(0)
        }
    }
}

/// No pause is shorter than the first or longer than the bound, and the
/// pause after a pause is its double until the bound is reached.
pub proof fn lemma_backoff_bounds(delay: u64)
    requires
        BACKOFF_START <= delay <= BACKOFF_MAX,
    ensures
        BACKOFF_START <= next_delay(delay) <= BACKOFF_MAX,
        delay <= next_delay(delay),
        next_delay(delay) == 2 * delay || next_delay(delay) == BACKOFF_MAX,
{
}

/// One request in flight on an upstream connection.
#[derive(Debug, Clone, Copy, PartialEq, Eq, Structural)]
pub struct InFlight {
    /// The id the request was written with.
    pub upstream_id: u64,
    /// The session that made it.
    pub session: u64,
    /// The id the miner chose.
    pub miner_id: u64,
    /// Where the fee scheduler sent the share.
    pub route: Route,
    /// When it was written, in seconds of listener time.
    pub sent_at: u64,
}

/// Which requests to take out of the table.
#[derive(Debug, Clone, Copy, PartialEq, Eq, Structural)]
pub enum Pick {
    /// Those written more than [`STALE_AFTER`] seconds before this time.
    OlderThan(u64),
    /// Those of this session.
    OfSession(u64),
    /// All of them.
    All,
}

/// Whether `pick` takes `entry`.
pub open spec fn picks(pick: Pick, entry: InFlight) -> bool {
    match pick {
        Pick::OlderThan(now) => now - entry.sent_at > STALE_AFTER,
        Pick::OfSession(session) => entry.session == session,
        Pick::All => true,
    }
}

/// The entries that `pick` takes, in their order.
pub open spec fn taken(entries: Seq<InFlight>, pick: Pick) -> Seq<InFlight>
    decreases entries.len(),
{
    if entries.len() == 0 {
        Seq::empty()
    } else if picks(pick, entries.last()) {
        taken(entries.drop_last(), pick).push(entries.last())
    } else {
        taken(entries.drop_last(), pick)
    }
}

/// The entries that `pick` leaves, in their order.
pub open spec fn left(entries: Seq<InFlight>, pick: Pick) -> Seq<InFlight>
    decreases entries.len(),
{
    if entries.len() == 0 {
        Seq::empty()
    } else if picks(pick, entries.last()) {
        left(entries.drop_last(), pick)
    } else {
        left(entries.drop_last(), pick).push(entries.last())
    }
}

/// The ids rise along the table and stay below `bound`.
pub open spec fn rising(entries: Seq<InFlight>, bound: u64) -> bool {
    &&& forall|i: int| 0 <= i < entries.len() ==> (#[trigger] entries[i]).upstream_id < bound
    &&& forall|i: int, j: int|
        0 <= i < j < entries.len() ==> (#[trigger] entries[i]).upstream_id < (
        #[trigger] entries[j]).upstream_id
}

/// The position of the request written with `id`, if it is in flight.
pub open spec fn slot_of(entries: Seq<InFlight>, id: u64) -> Option<int> {
    if exists|i: int| 0 <= i < entries.len() && (#[trigger] entries[i]).upstream_id == id {
        Some(choose|i: int| 0 <= i < entries.len() && (#[trigger] entries[i]).upstream_id == id)
    } else {
        None
    }
}

/// Taking entries out keeps the order of those that stay: what is left of a
/// rising table is rising, and every entry went one way or the other.
pub proof fn lemma_partition(entries: Seq<InFlight>, pick: Pick, bound: u64)
    requires
        rising(entries, bound),
    ensures
        rising(left(entries, pick), bound),
        rising(taken(entries, pick), bound),
        left(entries, pick).len() + taken(entries, pick).len() == entries.len(),
        forall|i: int|
            0 <= i < left(entries, pick).len() ==> entries.contains(
                #[trigger] left(entries, pick)[i],
            ) && !picks(pick, left(entries, pick)[i]),
        forall|i: int|
            0 <= i < taken(entries, pick).len() ==> entries.contains(
                #[trigger] taken(entries, pick)[i],
            ) && picks(pick, taken(entries, pick)[i]),
    decreases entries.len(),
{
    if entries.len() > 0 {
        let before = entries.drop_last();
        let last = entries.last();
        lemma_partition(before, pick, bound);
        let l = left(entries, pick);
        let t = taken(entries, pick);
        assert forall|i: int| 0 <= i < left(before, pick).len() implies entries.contains(
            #[trigger] left(before, pick)[i],
        ) && left(before, pick)[i].upstream_id < last.upstream_id by {
            let e = left(before, pick)[i];
            assert(before.contains(e));
            let k = choose|k: int| 0 <= k < before.len() && before[k] == e;
            assert(entries[k] == e);
            assert(entries[k].upstream_id < entries[entries.len() - 1].upstream_id);
        }
        assert forall|i: int| 0 <= i < taken(before, pick).len() implies entries.contains(
            #[trigger] taken(before, pick)[i],
        ) && taken(before, pick)[i].upstream_id < last.upstream_id by {
            let e = taken(before, pick)[i];
            assert(before.contains(e));
            let k = choose|k: int| 0 <= k < before.len() && before[k] == e;
            assert(entries[k] == e);
            assert(entries[k].upstream_id < entries[entries.len() - 1].upstream_id);
        }
        assert(entries[entries.len() - 1] == last);
        assert(entries.contains(last));
    }
}

/// One upstream connection: its requests in flight and its subscribers.
#[derive(Debug)]
pub struct UpstreamConn {
    next_id: u64,
    in_flight: Vec<InFlight>,
    subscribers: Vec<u64>,
    last_job: Option<Vec<String>>,
}

/// The view of [`UpstreamConn`].
pub struct UpstreamView {
    /// The id that the next request is written with.
    pub next_id: u64,
    /// The requests in flight, oldest first.
    pub in_flight: Seq<InFlight>,
    /// The sessions that hear of jobs, in the order they subscribed.
    pub subscribers: Seq<u64>,
    /// The job delivered last.
    pub last_job: Option<Seq<Seq<char>>>,
}

impl View for UpstreamConn {
    type V = UpstreamView;

    closed spec fn view(&self) -> UpstreamView {
        UpstreamView {
            next_id: self.next_id,
            in_flight: self.in_flight@,
            subscribers: self.subscribers@,
            last_job: match self.last_job {
                Some(job) => Some(job.deep_view()),
                None => None,
            },
        }
    }
}

impl UpstreamConn {
    /// Ids in flight are distinct and were all handed out before; nobody is
    /// subscribed twice.
    pub open spec fn wf(&self) -> bool {
        &&& rising(self@.in_flight, self@.next_id)
        &&& self@.subscribers.no_duplicates()
    }

    /// A connection with nothing in flight.
    pub fn new() -> (c: UpstreamConn)
        ensures
            c.wf(),
            c@ == (UpstreamView {
                next_id: 1,
                in_flight: Seq::empty(),
                subscribers: Seq::empty(),
                last_job: None,
            }),
    {
        UpstreamConn {
            next_id: 1,
            in_flight: Vec::new(),
            subscribers: Vec::new(),
            last_job: None,
        }
    }

    /// Whether another id can be handed out.
    pub fn has_room(&self) -> (b: bool)
        ensures
            b == (self@.next_id < u64::MAX),
    {
        self.next_id < u64::MAX
    }

    /// The number of requests in flight.
    pub fn pending(&self) -> (n: usize)
        ensures
            n == self@.in_flight.len(),
    {
        self.in_flight.len()
    }

    /// Hands out a fresh id for a request and records it as in flight.
    pub fn reserve(&mut self, session: u64, miner_id: u64, route: Route, now: u64) -> (id: u64)
        requires
            old(self).wf(),
            old(self)@.next_id < u64::MAX,
        ensures
            final(self).wf(),
            id == old(self)@.next_id,
            final(self)@ == (UpstreamView {
                next_id: (id + 1) as u64,
                in_flight: old(self)@.in_flight.push(
                    InFlight { upstream_id: id, session, miner_id, route, sent_at: now },
                ),
                ..old(self)@
            }),
    {
        let id = self.next_id;
        self.in_flight.push(InFlight { upstream_id: id, session, miner_id, route, sent_at: now });
        self.next_id = id + 1;
        id
    }

    /// Takes the request written with `id` out of the table.
    ///
    /// An id that is not in flight belongs to no request: the answer that
    /// carried it is dropped.
    pub fn resolve(&mut self, id: u64) -> (r: Option<InFlight>)
        requires
            old(self).wf(),
        ensures
            final(self).wf(),
            match slot_of(old(self)@.in_flight, id) {
                Some(i) => r == Some(old(self)@.in_flight[i]) && final(self)@ == (UpstreamView {
                    in_flight: old(self)@.in_flight.remove(i),
                    ..old(self)@
                }),
                None => r is None && final(self)@ == old(self)@,
            },
            r is Some ==> r.unwrap().upstream_id == id,
    {
        let mut i: usize = 0;
        while i < self.in_flight.len()
            invariant
                i <= self.in_flight@.len(),
                *self == *old(self),
                self.wf(),
                forall|k: int| 0 <= k < i ==> (#[trigger] self.in_flight@[k]).upstream_id != id,
            decreases self.in_flight@.len() - i,
        {
            if self.in_flight[i].upstream_id == id {
                let ghost before = self.in_flight@;
                proof {
                    let c = slot_of(before, id).unwrap();
                    if c < i {
                        assert(before[c].upstream_id != id);
                    } else if i < c {
                        assert(before[i as int].upstream_id < before[c].upstream_id);
                    }
                }
                let entry = self.in_flight.remove(i);
                proof {
                    assert(self.in_flight@ =~= before.remove(i as int));
                    assert forall|a: int, b: int|
                        0 <= a < b < self.in_flight@.len() implies (
                    #[trigger] self.in_flight@[a]).upstream_id < (
                    #[trigger] self.in_flight@[b]).upstream_id by {
                        let a0 = if a < i { a } else { a + 1 };
                        let b0 = if b < i { b } else { b + 1 };
                        assert(self.in_flight@[a] == before[a0]);
                        assert(self.in_flight@[b] == before[b0]);
                    }
                    assert forall|a: int| 0 <= a < self.in_flight@.len() implies (
                    #[trigger] self.in_flight@[a]).upstream_id < self.next_id by {
                        let a0 = if a < i { a } else { a + 1 };
                        assert(self.in_flight@[a] == before[a0]);
                    }
                }
                return Some(entry);
            }
            i = i + 1;
        }
        None
    }

    /// Takes out the requests that `pick` names, oldest first.
    pub fn take_out(&mut self, pick: Pick) -> (out: Vec<InFlight>)
        requires
            old(self).wf(),
        ensures
            final(self).wf(),
            out@ == taken(old(self)@.in_flight, pick),
            final(self)@ == (UpstreamView {
                in_flight: left(old(self)@.in_flight, pick),
                ..old(self)@
            }),
    {
        let mut out: Vec<InFlight> = Vec::new();
        let mut kept: Vec<InFlight> = Vec::new();
        let mut i: usize = 0;
        let ghost all = self.in_flight@;
        while i < self.in_flight.len()
            invariant
                i <= all.len(),
                *self == *old(self),
                self.wf(),
                all == self.in_flight@,
                out@ == taken(all.take(i as int), pick),
                kept@ == left(all.take(i as int), pick),
            decreases all.len() - i,
        {
            let entry = self.in_flight[i];
            let picked = match pick {
                Pick::OlderThan(now) => now > entry.sent_at && now - entry.sent_at > STALE_AFTER,
                Pick::OfSession(session) => entry.session == session,
                Pick::All => true,
            };
            proof {
                assert(all.take(i + 1).drop_last() =~= all.take(i as int));
                assert(all.take(i + 1).last() == entry);
            }
            if picked {
                out.push(entry);
            } else {
                kept.push(entry);
            }
            i = i + 1;
        }
        proof {
            assert(all.take(i as int) =~= all);
            lemma_partition(all, pick, self.next_id);
        }
        self.in_flight = kept;
        out
    }

    /// Gives up the requests written more than [`STALE_AFTER`] seconds ago.
    pub fn expire(&mut self, now: u64) -> (out: Vec<InFlight>)
        requires
            old(self).wf(),
        ensures
            final(self).wf(),
            out@ == taken(old(self)@.in_flight, Pick::OlderThan(now)),
            final(self)@ == (UpstreamView {
                in_flight: left(old(self)@.in_flight, Pick::OlderThan(now)),
                ..old(self)@
            }),
    {
        self.take_out(Pick::OlderThan(now))
    }

    /// The connection was lost: every request in flight is cancelled.
    pub fn reset(&mut self) -> (out: Vec<InFlight>)
        requires
            old(self).wf(),
        ensures
            final(self).wf(),
            out@ == taken(old(self)@.in_flight, Pick::All),
            final(self)@ == (UpstreamView {
                in_flight: left(old(self)@.in_flight, Pick::All),
                ..old(self)@
            }),
    {
        self.take_out(Pick::All)
    }
}

impl UpstreamConn {
    /// Adds a session to those that hear of jobs.
    pub fn subscribe(&mut self, session: u64)
        requires
            old(self).wf(),
        ensures
            final(self).wf(),
            final(self)@ == (UpstreamView {
                subscribers: if old(self)@.subscribers.contains(session) {
                    old(self)@.subscribers
                } else {
                    old(self)@.subscribers.push(session)
                },
                ..old(self)@
            }),
    {
        let mut i: usize = 0;
        while i < self.subscribers.len()
            invariant
                i <= self.subscribers@.len(),
                *self == *old(self),
                self.wf(),
                forall|k: int| 0 <= k < i ==> self.subscribers@[k] != session,
            decreases self.subscribers@.len() - i,
        {
            if self.subscribers[i] == session {
                return ;
            }
            i = i + 1;
        }
        self.subscribers.push(session);
    }

    /// Forgets a session: it hears of no more jobs, and what it has in
    /// flight is taken out and returned.
    pub fn drop_session(&mut self, session: u64) -> (out: Vec<InFlight>)
        requires
            old(self).wf(),
        ensures
            final(self).wf(),
            out@ == taken(old(self)@.in_flight, Pick::OfSession(session)),
            final(self)@ == (UpstreamView {
                in_flight: left(old(self)@.in_flight, Pick::OfSession(session)),
                subscribers: old(self)@.subscribers.remove_value(session),
                ..old(self)@
            }),
    {
        let mut i: usize = 0;
        let ghost subs = self.subscribers@;
        proof {
            assert(subs.index_of_first(session) is None ==> subs.remove_value(session) == subs);
        }
        while i < self.subscribers.len()
            invariant
                i <= self.subscribers@.len(),
                *self == *old(self),
                self.wf(),
                subs == self.subscribers@,
                forall|k: int| 0 <= k < i ==> subs[k] != session,
            decreases self.subscribers@.len() - i,
        {
            if self.subscribers[i] == session {
                proof {
                    subs.index_of_first_ensures(session);
                    let first = subs.index_of_first(session);
                    assert(first == Some(i as int)) by {
                        assert(subs.contains(session));
                        let f = first.unwrap();
                        if f < i {
                            assert(subs[f] != session);
                        }
                    }
                    subs.remove_ensures(i as int);
                }
                self.subscribers.remove(i);
                proof {
                    assert(self.subscribers@ =~= subs.remove(i as int));
                    assert(self.subscribers@.no_duplicates()) by {
                        assert forall|a: int, b: int|
                            0 <= a < self.subscribers@.len() && 0 <= b < self.subscribers@.len()
                                && a != b implies self.subscribers@[a] != self.subscribers@[b] by {
                            let a0 = if a < i { a } else { a + 1 };
                            let b0 = if b < i { b } else { b + 1 };
                            assert(self.subscribers@[a] == subs[a0]);
                            assert(self.subscribers@[b] == subs[b0]);
                        }
                    }
                }
                return self.take_out(Pick::OfSession(session));
            }
            i = i + 1;
        }
        proof {
            subs.index_of_first_ensures(session);
            assert(!subs.contains(session));
        }
        self.take_out(Pick::OfSession(session))
    }

    /// Records a job as the current one and names the sessions that are to
    /// hear of it, in the order they subscribed.
    pub fn deliver_job(&mut self, result: &Vec<String>) -> (sessions: Vec<u64>)
        requires
            old(self).wf(),
        ensures
            final(self).wf(),
            sessions@ == old(self)@.subscribers,
            final(self)@ == (UpstreamView { last_job: Some(result.deep_view()), ..old(self)@ }),
    {
        let job = copy_list(result);
        self.last_job = Some(job);
        self.listeners()
    }

    /// The sessions that hear of jobs, in the order they subscribed.
    pub fn listeners(&self) -> (sessions: Vec<u64>)
        ensures
            sessions@ == self@.subscribers,
    {
        let mut sessions: Vec<u64> = Vec::new();
        let mut i: usize = 0;
        while i < self.subscribers.len()
            invariant
                i <= self.subscribers@.len(),
                sessions@ == self.subscribers@.take(i as int),
            decreases self.subscribers@.len() - i,
        {
            sessions.push(self.subscribers[i]);
            proof {
                assert(self.subscribers@.take(i + 1) =~= self.subscribers@.take(i as int).push(
                    self.subscribers@[i as int],
                ));
            }
            i = i + 1;
        }
        proof {
            assert(self.subscribers@.take(i as int) =~= self.subscribers@);
        }
        sessions
    }

    /// A copy of the job delivered last.
    pub fn last_job(&self) -> (job: Option<Vec<String>>)
        ensures
            match job {
                Some(j) => self@.last_job == Some(j.deep_view()),
                None => self@.last_job is None,
            },
    {
        match &self.last_job {
            Some(j) => Some(copy_list(j)),
            None => None,
        }
    }
}

/// A reset cancels everything: all requests come out, in order, and none
/// stays.
pub proof fn lemma_reset_takes_all(entries: Seq<InFlight>)
    ensures
        taken(entries, Pick::All) == entries,
        left(entries, Pick::All) == Seq::<InFlight>::empty(),
    decreases entries.len(),
{
    if entries.len() > 0 {
        lemma_reset_takes_all(entries.drop_last());
        assert(entries.drop_last().push(entries.last()) =~= entries);
    }
}


/// One of the two upstream connections of a listener.
#[derive(Debug, Clone, Copy, PartialEq, Eq, Structural)]
pub enum Pool {
    /// The real pool. In unified mode it is logged into with the operator's
    /// wallet.
    Primary,
    /// The developer pool.
    Fee,
}

/// The connection that carries the shares of a route.
pub open spec fn pool_of(route: Route) -> Pool {
    match route {
        Route::Dev => Pool::Fee,
        _ => Pool::Primary,
    }
}

/// The connection that carries the shares of a route.
pub fn pool_for(route: Route) -> (p: Pool)
    ensures
        p == pool_of(route),
{
    match route {
        Route::Dev => Pool::Fee,
        _ => Pool::Primary,
    }
}

/// The id that an answer carries, if it can be the id of a request.
pub open spec fn answer_id(m: MessageView) -> Option<u64> {
    match m {
        MessageView::Ack(AnyAckView::Plain(a)) => Some(a.id),
        MessageView::Ack(AnyAckView::Versioned(a)) => Some(a.id),
        MessageView::ErrObj(e) => Some(e.id),
        MessageView::ErrTuple(e) => if e.id >= 0 {
            Some(e.id as u64)
        } else {
            None
        },
        MessageView::ErrString(e) => if e.id >= 0 {
            Some(e.id as u64)
        } else {
            None
        },
        _ => None,
    }
}

/// The result of a job notification.
pub open spec fn job_result(m: MessageView) -> Option<Seq<Seq<char>>> {
    match m {
        MessageView::JobV1(PlainJobView::Plain(j)) => Some(j.result),
        MessageView::JobV1(PlainJobView::Versioned(j)) => Some(j.result),
        MessageView::JobWithHeight(j) => Some(j.result),
        _ => None,
    }
}

/// The id that an answer carries, if it can be the id of a request.
pub fn answer_id_of(m: &Message) -> (r: Option<u64>)
    ensures
        r == answer_id(m@),
{
    match m {
        Message::Ack(Acknowledgement::Plain(a)) => Some(a.id),
        Message::Ack(Acknowledgement::Versioned(a)) => Some(a.id),
        Message::ErrObj(e) => Some(e.id),
        Message::ErrTuple(e) => if e.id >= 0 {
            Some(e.id as u64)
        } else {
            None
        },
        Message::ErrString(e) => if e.id >= 0 {
            Some(e.id as u64)
        } else {
            None
        },
        _ => None,
    }
}

/// A copy of the result of a job notification.
pub fn job_result_of(m: &Message) -> (r: Option<Vec<String>>)
    ensures
        match r {
            Some(v) => job_result(m@) == Some(v.deep_view()),
            None => job_result(m@) is None,
        },
{
    match m {
        Message::JobV1(Job::Plain(j)) => Some(copy_list(&j.result)),
        Message::JobV1(Job::Versioned(j)) => Some(copy_list(&j.result)),
        Message::JobWithHeight(j) => Some(copy_list(&j.result)),
        _ => None,
    }
}

/// What a line from a pool means for the sessions.
#[derive(Debug, PartialEq)]
pub enum PoolEvent {
    /// A job for these sessions, in this order.
    Job { sessions: Vec<u64>, job: Message },
    /// The answer to a request that was in flight.
    Answer { entry: InFlight, message: Message },
    /// An answer to no request in flight: to be logged and dropped.
    Unmatched,
    /// A line that is no message the proxy knows: to be passed on to these
    /// sessions as it came.
    Forward { sessions: Vec<u64> },
    /// A line of the developer pool that no miner is to see.
    Dropped,
}

/// The view of [`PoolEvent`].
pub enum PoolEventView {
    Job { sessions: Seq<u64>, job: MessageView },
    Answer { entry: InFlight, message: MessageView },
    Unmatched,
    Forward { sessions: Seq<u64> },
    Dropped,
}

impl View for PoolEvent {
    type V = PoolEventView;

    open spec fn view(&self) -> PoolEventView {
        match self {
            PoolEvent::Job { sessions, job } => PoolEventView::Job {
                sessions: sessions@,
                job: job@,
            },
            PoolEvent::Answer { entry, message } => PoolEventView::Answer {
                entry: *entry,
                message: message@,
            },
            PoolEvent::Unmatched => PoolEventView::Unmatched,
            PoolEvent::Forward { sessions } => PoolEventView::Forward { sessions: sessions@ },
            PoolEvent::Dropped => PoolEventView::Dropped,
        }
    }
}

/// What a message from the pool `pool` means, and the connection after it.
/// `message` is `None` for a line that fits no shape.
///
/// Jobs and unknown lines of the real pool go to every subscriber; those of
/// the developer pool go to nobody, so that a miner only ever sees the jobs
/// of its own pool. An answer is matched to the request in flight under its
/// id, which thereby leaves the table.
pub open spec fn pool_step(conn: UpstreamView, pool: Pool, message: Option<MessageView>) -> (
    UpstreamView,
    PoolEventView,
) {
    match message {
        None => match pool {
            Pool::Primary => (conn, PoolEventView::Forward { sessions: conn.subscribers }),
            Pool::Fee => (conn, PoolEventView::Dropped),
        },
        Some(m) => if job_result(m) is Some {
            match pool {
                Pool::Primary => (
                    UpstreamView { last_job: job_result(m), ..conn },
                    PoolEventView::Job { sessions: conn.subscribers, job: m },
                ),
                Pool::Fee => (conn, PoolEventView::Dropped),
            }
        } else {
            match answer_id(m) {
                Some(id) => match slot_of(conn.in_flight, id) {
                    Some(i) => (
                        UpstreamView { in_flight: conn.in_flight.remove(i), ..conn },
                        PoolEventView::Answer { entry: conn.in_flight[i], message: m },
                    ),
                    None => (conn, PoolEventView::Unmatched),
                },
                None => (conn, PoolEventView::Unmatched),
            }
        },
    }
}

/// The multiplexer is as it was.
pub open spec fn untouched(before: &Multiplexer, after: &Multiplexer) -> bool {
    &&& forall|pool: Pool| #[trigger] after.conn(pool) == before.conn(pool)
    &&& forall|pool: Pool| #[trigger] after.dialer(pool) == before.dialer(pool)
}

/// The upstream connections of one listener.
#[derive(Debug)]
pub struct Multiplexer {
    primary: UpstreamConn,
    fee: UpstreamConn,
    primary_dialer: Dialer,
    fee_dialer: Dialer,
}

impl Multiplexer {
    /// The state of one connection.
    pub closed spec fn conn(&self, pool: Pool) -> UpstreamView {
        match pool {
            Pool::Primary => self.primary@,
            Pool::Fee => self.fee@,
        }
    }

    /// The dialer of one connection.
    pub closed spec fn dialer(&self, pool: Pool) -> Dialer {
        match pool {
            Pool::Primary => self.primary_dialer,
            Pool::Fee => self.fee_dialer,
        }
    }

    /// Both connections and both dialers are well-formed.
    pub closed spec fn wf(&self) -> bool {
        &&& self.primary.wf()
        &&& self.fee.wf()
        &&& self.primary_dialer.wf()
        &&& self.fee_dialer.wf()
    }

    /// Whether a share can still be sent along `route`.
    pub open spec fn room(&self, route: Route) -> bool {
        self.conn(pool_of(route)).next_id < u64::MAX
    }

    /// The connections of a listener with so many addresses of each pool.
    pub fn new(primary_addresses: usize, fee_addresses: usize) -> (m: Multiplexer)
        ensures
            m.wf(),
            forall|pool: Pool|
                #[trigger] m.conn(pool) == (UpstreamView {
                    next_id: 1,
                    in_flight: Seq::empty(),
                    subscribers: Seq::empty(),
                    last_job: None,
                }),
            m.dialer(Pool::Primary) == Dialer::new_spec(primary_addresses),
            m.dialer(Pool::Fee) == Dialer::new_spec(fee_addresses),
            m.dialer(Pool::Primary).count() == primary_addresses,
            m.dialer(Pool::Fee).count() == fee_addresses,
            forall|pool: Pool|
                (#[trigger] m.dialer(pool)).cursor() == 0 && m.dialer(pool).delay()
                    == BACKOFF_START,
    {
        Multiplexer {
            primary: UpstreamConn::new(),
            fee: UpstreamConn::new(),
            primary_dialer: Dialer::new(primary_addresses),
            fee_dialer: Dialer::new(fee_addresses),
        }
    }

    /// Whether a share can still be sent along `route`.
    pub fn has_room(&self, route: Route) -> (b: bool)
        ensures
            b == self.room(route),
    {
        match route {
            Route::Dev => self.fee.has_room(),
            _ => self.primary.has_room(),
        }
    }

    /// Hands out a fresh id on the connection of `route` and records the
    /// request as in flight there. The other connection is untouched.
    pub fn reserve(&mut self, route: Route, session: u64, miner_id: u64, now: u64) -> (id: u64)
        requires
            old(self).wf(),
            old(self).room(route),
        ensures
            final(self).wf(),
            id == old(self).conn(pool_of(route)).next_id,
            final(self).conn(pool_of(route)) == (UpstreamView {
                next_id: (id + 1) as u64,
                in_flight: old(self).conn(pool_of(route)).in_flight.push(
                    InFlight { upstream_id: id, session, miner_id, route, sent_at: now },
                ),
                ..old(self).conn(pool_of(route))
            }),
            forall|pool: Pool|
                pool != pool_of(route) ==> #[trigger] final(self).conn(pool) == old(self).conn(pool),
            forall|pool: Pool| #[trigger] final(self).dialer(pool) == old(self).dialer(pool),
    {
        match route {
            Route::Dev => self.fee.reserve(session, miner_id, route, now),
            _ => self.primary.reserve(session, miner_id, route, now),
        }
    }

    /// Takes in a message of the pool `pool`; `None` stands for a line that
    /// fits no shape.
    pub fn on_pool_message(&mut self, pool: Pool, message: Option<Message>) -> (event: PoolEvent)
        requires
            old(self).wf(),
        ensures
            final(self).wf(),
            final(self).conn(pool) == pool_step(
                old(self).conn(pool),
                pool,
                match message {
                    Some(m) => Some(m@),
                    None => None,
                },
            ).0,
            event@ == pool_step(
                old(self).conn(pool),
                pool,
                match message {
                    Some(m) => Some(m@),
                    None => None,
                },
            ).1,
            forall|other: Pool|
                other != pool ==> #[trigger] final(self).conn(other) == old(self).conn(other),
            forall|any: Pool| #[trigger] final(self).dialer(any) == old(self).dialer(any),
            match event {
                PoolEvent::Job { sessions, job } => message is Some && job.writable()
                    == message.unwrap().writable(),
                PoolEvent::Answer { entry, message: answer } => message is Some
                    && answer.writable() == message.unwrap().writable(),
                _ => true,
            },
    {
        match pool {
            Pool::Fee => match message {
                None => PoolEvent::Dropped,
                Some(m) => {
                    if job_result_of(&m).is_some() {
                        return PoolEvent::Dropped;
                    }
                    match answer_id_of(&m) {
                        Some(id) => match self.fee.resolve(id) {
                            Some(entry) => PoolEvent::Answer { entry, message: m },
                            None => PoolEvent::Unmatched,
                        },
                        None => PoolEvent::Unmatched,
                    }
                },
            },
            Pool::Primary => match message {
                None => {
                    let sessions = self.primary.listeners();
                    PoolEvent::Forward { sessions }
                },
                Some(m) => {
                    if let Some(result) = job_result_of(&m) {
                        let sessions = self.primary.deliver_job(&result);
                        return PoolEvent::Job { sessions, job: m };
                    }
                    match answer_id_of(&m) {
                        Some(id) => match self.primary.resolve(id) {
                            Some(entry) => PoolEvent::Answer { entry, message: m },
                            None => PoolEvent::Unmatched,
                        },
                        None => PoolEvent::Unmatched,
                    }
                },
            },
        }
    }

    /// Takes in one line of the pool `pool`.
    ///
    /// A line that is no JSON is an error of the connection. Every other
    /// line is read as the message it holds, or as none.
    pub fn on_pool_line(&mut self, pool: Pool, line: &[u8]) -> (r: Result<PoolEvent, ProtocolError>)
        requires
            old(self).wf(),
        ensures
            final(self).wf(),
            forall|other: Pool|
                other != pool ==> #[trigger] final(self).conn(other) == old(self).conn(other),
            forall|any: Pool| #[trigger] final(self).dialer(any) == old(self).dialer(any),
            match document(line@) {
                None => r == Err::<PoolEvent, ProtocolError>(ProtocolError::NotJson) && final(self).conn(pool) == old(self).conn(pool),
                Some(doc) => r is Ok && r.unwrap()@ == pool_step(
                    old(self).conn(pool),
                    pool,
                    MessageView::decode_outbound(doc),
                ).1 && final(self).conn(pool) == pool_step(
                    old(self).conn(pool),
                    pool,
                    MessageView::decode_outbound(doc),
                ).0,
            },
            r is Ok ==> match r.unwrap() {
                PoolEvent::Job { sessions, job } => job.writable(),
                PoolEvent::Answer { entry, message } => message.writable(),
                _ => true,
            },
    {
        match parse(line) {
            Err(e) => Err(e),
            Ok(doc) => {
                let message = Message::from_pool(&doc);
                Ok(self.on_pool_message(pool, message))
            },
        }
    }

    /// Gives up the requests of `pool` that have waited longer than
    /// [`STALE_AFTER`] seconds; each is to be reported to its session as
    /// timed out.
    pub fn on_tick(&mut self, pool: Pool, now: u64) -> (expired: Vec<InFlight>)
        requires
            old(self).wf(),
        ensures
            final(self).wf(),
            expired@ == taken(old(self).conn(pool).in_flight, Pick::OlderThan(now)),
            final(self).conn(pool) == (UpstreamView {
                in_flight: left(old(self).conn(pool).in_flight, Pick::OlderThan(now)),
                ..old(self).conn(pool)
            }),
            forall|other: Pool|
                other != pool ==> #[trigger] final(self).conn(other) == old(self).conn(other),
            forall|any: Pool| #[trigger] final(self).dialer(any) == old(self).dialer(any),
    {
        match pool {
            Pool::Primary => self.primary.expire(now),
            Pool::Fee => self.fee.expire(now),
        }
    }

    /// The connection to `pool` was lost: everything in flight on it is
    /// cancelled and is to be reported to its session as reset, and the
    /// first address is dialled again at once.
    pub fn on_disconnect(&mut self, pool: Pool) -> (r: (Vec<InFlight>, Step))
        requires
            old(self).wf(),
        ensures
            final(self).wf(),
            r.0@ == old(self).conn(pool).in_flight,
            final(self).conn(pool) == (UpstreamView {
                in_flight: Seq::empty(),
                ..old(self).conn(pool)
            }),
            r.1 == if old(self).dialer(pool).count() == 0 {
                Step::GiveUp
            } else {
                Step::Dial(0)
            },
            final(self).dialer(pool).count() == old(self).dialer(pool).count(),
            final(self).dialer(pool).cursor() == 0,
            final(self).dialer(pool).delay() == BACKOFF_START,
            forall|other: Pool|
                other != pool ==> #[trigger] final(self).conn(other) == old(self).conn(other)
                    && final(self).dialer(other) == old(self).dialer(other),
    {
        proof {
            lemma_reset_takes_all(self.conn(pool).in_flight);
        }
        match pool {
            Pool::Primary => {
                let cancelled = self.primary.reset();
                let step = self.primary_dialer.dropped();
                (cancelled, step)
            },
            Pool::Fee => {
                let cancelled = self.fee.reset();
                let step = self.fee_dialer.dropped();
                (cancelled, step)
            },
        }
    }

    /// An address of `pool` could not be reached.
    ///
    /// The next address is dialled at once; after the last one comes a
    /// pause, which is twice the one before and at most [`BACKOFF_MAX`].
    /// Without addresses nothing changes.
    pub fn on_connect_failed(&mut self, pool: Pool) -> (s: Step)
        requires
            old(self).wf(),
        ensures
            final(self).wf(),
            forall|any: Pool| #[trigger] final(self).conn(any) == old(self).conn(any),
            forall|other: Pool|
                other != pool ==> #[trigger] final(self).dialer(other) == old(self).dialer(other),
            final(self).dialer(pool).count() == old(self).dialer(pool).count(),
            old(self).dialer(pool).count() == 0 ==> s == Step::GiveUp && final(self).dialer(pool)
                == old(self).dialer(pool),
            old(self).dialer(pool).count() > 0 && old(self).dialer(pool).cursor() + 1
                < old(self).dialer(pool).count() ==> s == Step::Dial(
                (old(self).dialer(pool).cursor() + 1) as usize,
            ) && final(self).dialer(pool).cursor() == old(self).dialer(pool).cursor() + 1
                && final(self).dialer(pool).delay() == old(self).dialer(pool).delay(),
            old(self).dialer(pool).count() > 0 && old(self).dialer(pool).cursor() + 1
                == old(self).dialer(pool).count() ==> s == Step::Pause(
                old(self).dialer(pool).delay(),
            ) && final(self).dialer(pool).cursor() == 0 && final(self).dialer(pool).delay()
                == next_delay(old(self).dialer(pool).delay()),
    {
        match pool {
            Pool::Primary => self.primary_dialer.failed(),
            Pool::Fee => self.fee_dialer.failed(),
        }
    }

    /// A connection to `pool` stands.
    pub fn on_connected(&mut self, pool: Pool)
        requires
            old(self).wf(),
        ensures
            final(self).wf(),
            forall|any: Pool| #[trigger] final(self).conn(any) == old(self).conn(any),
            forall|other: Pool|
                other != pool ==> #[trigger] final(self).dialer(other) == old(self).dialer(other),
            final(self).dialer(pool).count() == old(self).dialer(pool).count(),
            final(self).dialer(pool).cursor() == old(self).dialer(pool).cursor(),
            final(self).dialer(pool).delay() == BACKOFF_START,
    {
        match pool {
            Pool::Primary => self.primary_dialer.connected(),
            Pool::Fee => self.fee_dialer.connected(),
        }
    }

    /// The step that opens the connection to `pool`.
    pub fn start(&self, pool: Pool) -> (s: Step)
        requires
            self.wf(),
        ensures
            s == if self.dialer(pool).count() == 0 {
                Step::GiveUp
            } else {
                Step::Dial(self.dialer(pool).cursor())
            },
    {
        match pool {
            Pool::Primary => self.primary_dialer.start(),
            Pool::Fee => self.fee_dialer.start(),
        }
    }

    /// A session has logged in: it hears of the real pool's jobs from now
    /// on. The job delivered last, if any, is returned for it.
    pub fn attach(&mut self, session: u64) -> (job: Option<Vec<String>>)
        requires
            old(self).wf(),
        ensures
            final(self).wf(),
            final(self).conn(Pool::Primary) == (UpstreamView {
                subscribers: if old(self).conn(Pool::Primary).subscribers.contains(session) {
                    old(self).conn(Pool::Primary).subscribers
                } else {
                    old(self).conn(Pool::Primary).subscribers.push(session)
                },
                ..old(self).conn(Pool::Primary)
            }),
            final(self).conn(Pool::Fee) == old(self).conn(Pool::Fee),
            forall|any: Pool| #[trigger] final(self).dialer(any) == old(self).dialer(any),
            match job {
                Some(j) => old(self).conn(Pool::Primary).last_job == Some(j.deep_view()),
                None => old(self).conn(Pool::Primary).last_job is None,
            },
    {
        self.primary.subscribe(session);
        self.primary.last_job()
    }

    /// A session has ended: it hears of no more jobs, and whatever it has in
    /// flight on either connection is forgotten.
    pub fn detach(&mut self, session: u64)
        requires
            old(self).wf(),
        ensures
            final(self).wf(),
            forall|pool: Pool|
                #[trigger] final(self).conn(pool) == (UpstreamView {
                    in_flight: left(old(self).conn(pool).in_flight, Pick::OfSession(session)),
                    subscribers: old(self).conn(pool).subscribers.remove_value(session),
                    ..old(self).conn(pool)
                }),
            forall|any: Pool| #[trigger] final(self).dialer(any) == old(self).dialer(any),
    {
        let _ = self.primary.drop_session(session);
        let _ = self.fee.drop_session(session);
    }
}

} // verus!
