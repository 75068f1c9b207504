//! What a session does, as a state machine over plain values, and what
//! holds of it at all times.
//!
//! Shares are answered in the order they were submitted. A share waits in
//! the queue until the pool has answered it, the upstream connection was
//! reset or its time ran out; its answer is written once every share before
//! it has been answered.

use crate::fee::decide;
use crate::fee::FeeCounter;
use crate::fee::Route;
use crate::protocol::error::ProtocolError;
use crate::protocol::message::AnyAckView;
use crate::protocol::message::MessageView;
use crate::protocol::message::PlainJobView;
use crate::protocol::rpc::eth::element;
use crate::protocol::rpc::eth::hashrate_of;
use crate::protocol::rpc::eth::selects_stratum;
use crate::protocol::rpc::eth::with_diff;
use crate::protocol::rpc::eth::AckView;
use crate::protocol::rpc::eth::EthErrorView;
use crate::protocol::rpc::eth::HeightJobView;
use crate::protocol::rpc::eth::JobView;
use crate::protocol::rpc::eth::ObjectErrorView;
use crate::protocol::rpc::eth::RequestView;
use crate::protocol::rpc::eth::VersionedJobView;
use crate::protocol::json::JsonView;
use crate::protocol::message::submit_method;
use crate::state::WorkerView;
use crate::upstream::answer_id;
use crate::upstream::job_result;
use crate::util::config::ShareMode;
use crate::util::text::all_graphic;
use vstd::prelude::*;

verus! {

/// Where a session stands.
#[derive(Debug, Clone, Copy, PartialEq, Eq, Structural)]
pub enum Phase {
    /// The miner has connected and said nothing yet.
    Connected,
    /// The miner has subscribed.
    Subscribed,
    /// The miner has logged in.
    LoggedIn,
    /// A job has been forwarded to the miner.
    Mining,
    /// The session has ended.
    Closing,
}

/// The dialect a miner speaks.
#[derive(Debug, Clone, Copy, PartialEq, Eq, Structural)]
pub enum ProtocolVariant {
    /// Plain `eth_getWork` polling, and the default.
    EthGetwork,
    /// Stratum 1.0.0, selected by a subscription.
    EthStratum100,
    /// The NiceHash flavour of Stratum.
    EthStratumNicehash,
}

/// Why a session ended.
#[derive(Debug, Clone, Copy, PartialEq, Eq, Structural)]
pub enum CloseReason {
    /// The miner closed its connection.
    MinerGone,
    /// The upstream connection is gone and cannot be reopened.
    UpstreamGone,
    /// The miner sent what the protocol does not allow.
    Protocol(ProtocolError),
    /// The miner logged in without a usable wallet.
    AuthError,
}

/// Why an upstream request ended without an answer of the pool.
#[derive(Debug, Clone, Copy, PartialEq, Eq, Structural)]
pub enum Cancel {
    /// The upstream connection was reset.
    UpstreamReset,
    /// No answer came within the time allowed.
    SubmitTimeout,
}

/// Something for the log.
#[derive(Debug, Clone, Copy, PartialEq, Eq, Structural)]
pub enum Warning {
    /// A job without a difficulty slot; reported once per session.
    NoDifficultySlot,
    /// A line of the miner that is no message the proxy knows.
    UnknownMessage,
    /// An answer to a share that is not waiting for one.
    UnmatchedAnswer,
    /// A share was given up for want of an answer.
    SubmitTimeout,
}

/// The view of a share that waits for its answer.
pub struct SubmitView {
    /// The id the share went upstream with.
    pub upstream_id: u64,
    /// The id the miner chose.
    pub miner_id: u64,
    /// Where the fee scheduler sent it.
    pub route: Route,
    /// The answer to write to the miner, once there is one.
    pub answer: Option<MessageView>,
}

/// The view of what a handler asks its caller to do.
pub enum ActionView {
    /// Write this message to the miner.
    ToMiner(MessageView),
    /// Write this message to the pool of this route.
    ToPool { route: Route, message: MessageView },
    /// Pass this line on to the real pool as it came.
    ForwardToPool(Seq<u8>),
    /// Log in upstream for this session with this wallet and worker.
    Login { route: Route, wallet: Seq<char>, worker: Seq<char> },
    /// Hand this snapshot to telemetry.
    Report(WorkerView),
    /// Write this to the log.
    Warn(Warning),
    /// Close the miner's connection and forget the session upstream.
    Close(CloseReason),
}

/// The view of a session.
pub struct SessionView {
    /// The session's number on its listener.
    pub id: u64,
    /// The share counters, with mode and rate.
    pub fee: FeeCounter,
    /// The wallet that unified mode logs in with.
    pub unified_wallet: Seq<char>,
    /// The difficulty written into the jobs of Stratum miners.
    pub difficulty: Seq<char>,
    pub phase: Phase,
    pub variant: ProtocolVariant,
    /// The worker, once logged in.
    pub worker: Option<WorkerView>,
    /// The shares that wait for an answer, in the order they came.
    pub pending: Seq<SubmitView>,
    /// The result of the job forwarded last.
    pub current_job: Option<Seq<Seq<char>>>,
    /// Whether the missing difficulty slot has been reported.
    pub warned: bool,
    /// The miner ids of all shares taken in, in order.
    pub taken_in: Seq<u64>,
    /// The miner ids of all answers written, in order.
    pub answered: Seq<u64>,
    /// The miner ids of the shares that waited when the session ended.
    pub abandoned: Seq<u64>,
}

/// The error code of a stale share.
pub const STALE_CODE: u64 = 21;

/// The error code for a share of a miner that has not logged in.
pub const UNAUTHORIZED_CODE: u64 = 24;

/// The answer that stands in for the pool's when a share is cancelled.
pub open spec fn stale_answer(miner_id: u64) -> MessageView {
    MessageView::ErrObj(
        ObjectErrorView {
            id: miner_id,
            result: false,
            error: EthErrorView { code: STALE_CODE, message: "stale"@ },
        },
    )
}

/// The answer to a share of a miner that has not logged in.
pub open spec fn unauthorized_answer(miner_id: u64) -> MessageView {
    MessageView::ErrObj(
        ObjectErrorView {
            id: miner_id,
            result: false,
            error: EthErrorView { code: UNAUTHORIZED_CODE, message: "unauthorized worker"@ },
        },
    )
}

/// A plain acknowledgement.
pub open spec fn ack(id: u64, result: bool) -> MessageView {
    MessageView::Ack(AnyAckView::Plain(AckView { id, result }))
}

/// A pool's answer under the id the miner chose. An answer in tuple or
/// string form whose id field cannot hold the miner's id is written in
/// object form.
pub open spec fn with_id(m: MessageView, id: u64) -> MessageView {
    match m {
        MessageView::Ack(AnyAckView::Plain(a)) => MessageView::Ack(
            AnyAckView::Plain(AckView { id, ..a }),
        ),
        MessageView::Ack(AnyAckView::Versioned(a)) => MessageView::Ack(
            AnyAckView::Versioned(crate::protocol::rpc::eth::VersionedAckView { id, ..a }),
        ),
        MessageView::ErrObj(e) => MessageView::ErrObj(ObjectErrorView { id, ..e }),
        MessageView::ErrTuple(e) => if id <= i64::MAX {
            MessageView::ErrTuple(
                crate::protocol::rpc::eth::TupleErrorView { id: id as i64, ..e },
            )
        } else {
            MessageView::ErrObj(
                ObjectErrorView {
                    id,
                    result: e.result,
                    error: EthErrorView {
                        code: if e.error.0 >= 0 {
                            e.error.0 as u64
                        } else {
                            0
                        },
                        message: e.error.1,
                    },
                },
            )
        },
        MessageView::ErrString(e) => if id <= i64::MAX {
            MessageView::ErrString(
                crate::protocol::rpc::eth::LooseErrorView { id: id as i64, ..e },
            )
        } else {
            MessageView::ErrObj(
                ObjectErrorView {
                    id,
                    result: e.result == JsonView::Bool(true),
                    error: EthErrorView { code: 0, message: e.error },
                },
            )
        },
        other => other,
    }
}

/// Whether an answer says that the share was accepted: its `result` is
/// `true`.
pub open spec fn says_accepted(m: MessageView) -> bool {
    match m {
        MessageView::Ack(AnyAckView::Plain(a)) => a.result,
        MessageView::Ack(AnyAckView::Versioned(a)) => a.result,
        MessageView::ErrObj(e) => e.result,
        MessageView::ErrTuple(e) => e.result,
        MessageView::ErrString(e) => e.result == JsonView::Bool(true),
        _ => false,
    }
}

/// Whether a message is an answer to a request.
pub open spec fn is_answer(m: MessageView) -> bool {
    m is Ack || m is ErrObj || m is ErrTuple || m is ErrString
}

/// A job with its result replaced.
pub open spec fn with_result(m: MessageView, result: Seq<Seq<char>>) -> MessageView {
    match m {
        MessageView::JobV1(PlainJobView::Plain(j)) => MessageView::JobV1(
            PlainJobView::Plain(JobView { result, ..j }),
        ),
        MessageView::JobV1(PlainJobView::Versioned(j)) => MessageView::JobV1(
            PlainJobView::Versioned(VersionedJobView { result, ..j }),
        ),
        MessageView::JobWithHeight(j) => MessageView::JobWithHeight(HeightJobView { result, ..j }),
        other => other,
    }
}

/// A wallet a miner can log in with: not empty, and made of printable
/// characters without spaces.
pub open spec fn usable_wallet(wallet: Seq<char>) -> bool {
    wallet.len() > 0 && all_graphic(wallet)
}

/// The miner ids of a queue of shares.
pub open spec fn miner_ids(pending: Seq<SubmitView>) -> Seq<u64> {
    Seq::new(pending.len(), |i: int| pending[i].miner_id)
}

/// The number of shares at the head of the queue that have their answer.
pub open spec fn ready(pending: Seq<SubmitView>) -> nat
    decreases pending.len(),
{
    if pending.len() == 0 || pending[0].answer is None {
        0
    } else {
        1 + ready(pending.skip(1))
    }
}

/// The position of the first share that went out along `route` under
/// `upstream_id` and still waits for its answer.
pub open spec fn waiting_at(pending: Seq<SubmitView>, route: Route, upstream_id: u64, i: int) -> bool {
    &&& 0 <= i < pending.len()
    &&& pending[i].route == route
    &&& pending[i].upstream_id == upstream_id
    &&& pending[i].answer is None
    &&& forall|k: int|
        0 <= k < i ==> !(pending[k].route == route && pending[k].upstream_id == upstream_id
            && pending[k].answer is None)
}

/// Whether some share went out along `route` under `upstream_id` and still
/// waits for its answer.
pub open spec fn waits(pending: Seq<SubmitView>, route: Route, upstream_id: u64) -> bool {
    exists|i: int| waiting_at(pending, route, upstream_id, i)
}

/// Every answer in the queue carries the id that the miner gave its share.
pub open spec fn correlated(pending: Seq<SubmitView>) -> bool {
    forall|i: int|
        0 <= i < pending.len() && (#[trigger] pending[i]).answer is Some ==> answer_id(
            pending[i].answer.unwrap(),
        ) == Some(pending[i].miner_id)
}

/// The worker after the answers of the first `n` shares of the queue.
pub open spec fn counted(worker: WorkerView, pending: Seq<SubmitView>, n: nat) -> WorkerView
    decreases n,
{
    if n == 0 || n > pending.len() {
        worker
    } else {
        let before = counted(worker, pending, (n - 1) as nat);
        if pending[n - 1].answer is Some && says_accepted(pending[n - 1].answer.unwrap()) {
            WorkerView { accepted: (before.accepted + 1) as u64, ..before }
        } else {
            WorkerView { rejected: (before.rejected + 1) as u64, ..before }
        }
    }
}

/// The answers of the first `n` shares of the queue, as actions.
pub open spec fn answers(pending: Seq<SubmitView>, n: nat) -> Seq<ActionView> {
    Seq::new(n, |i: int| ActionView::ToMiner(pending[i].answer.unwrap()))
}

impl SessionView {
    /// A session that has just been accepted.
    pub open spec fn start(
        id: u64,
        fee: FeeCounter,
        unified_wallet: Seq<char>,
        difficulty: Seq<char>,
    ) -> SessionView {
        SessionView {
            id,
            fee,
            unified_wallet,
            difficulty,
            phase: Phase::Connected,
            variant: ProtocolVariant::EthGetwork,
            worker: None,
            pending: Seq::empty(),
            current_job: None,
            warned: false,
            taken_in: Seq::empty(),
            answered: Seq::empty(),
            abandoned: Seq::empty(),
        }
    }

    /// What holds of a session at all times.
    ///
    /// Every share taken in has been answered, waits in the queue or was
    /// abandoned when the session ended, each exactly once and in the order
    /// the shares came; the worker's counters add up to the answers written;
    /// and the fee counter has counted every share.
    pub open spec fn inv(self) -> bool {
        &&& self.fee.wf()
        &&& correlated(self.pending)
        &&& self.taken_in == self.answered + miner_ids(self.pending) + self.abandoned
        &&& self.fee.total() == self.taken_in.len()
        &&& self.abandoned.len() > 0 ==> self.phase is Closing
        &&& self.phase is Closing ==> self.pending.len() == 0
        &&& match self.worker {
            Some(w) => w.accepted + w.rejected == self.answered.len() && !(self.phase is Connected)
                && !(self.phase is Subscribed),
            None => self.taken_in.len() == 0,
        }
    }

    /// The session ends: what waits is abandoned and the caller is told to
    /// close. A session that has ended does nothing more.
    pub open spec fn close(self, reason: CloseReason) -> (SessionView, Seq<ActionView>) {
        if self.phase is Closing {
            (self, Seq::empty())
        } else {
            (
                SessionView {
                    phase: Phase::Closing,
                    pending: Seq::empty(),
                    abandoned: miner_ids(self.pending),
                    ..self
                },
                seq![ActionView::Close(reason)],
            )
        }
    }

    /// A subscription: it selects the dialect and is acknowledged.
    pub open spec fn subscribe(self, r: RequestView) -> (SessionView, Seq<ActionView>) {
        if self.phase is Closing {
            (self, Seq::empty())
        } else {
            (
                SessionView {
                    phase: if self.phase is Connected {
                        Phase::Subscribed
                    } else {
                        self.phase
                    },
                    variant: if selects_stratum(r.params) {
                        ProtocolVariant::EthStratum100
                    } else {
                        self.variant
                    },
                    ..self
                },
                seq![ActionView::ToMiner(ack(r.id, true))],
            )
        }
    }

    /// The wallet a login goes upstream with.
    pub open spec fn upstream_wallet(self, wallet: Seq<char>) -> Seq<char> {
        if self.fee.mode() == ShareMode::UnifiedWallet {
            self.unified_wallet
        } else {
            wallet
        }
    }

    /// The route a login goes upstream by.
    pub open spec fn login_route(self) -> Route {
        if self.fee.mode() == ShareMode::UnifiedWallet {
            Route::Unified
        } else {
            Route::Real
        }
    }

    /// A login with the given id, parameters and effective worker name.
    ///
    /// Without a usable wallet the session ends. Otherwise the worker is
    /// created, the miner is acknowledged and the caller is told to log in
    /// upstream. A second login is acknowledged and changes nothing.
    pub open spec fn login(self, id: u64, params: Seq<Seq<char>>, worker: Seq<char>, now: u64) -> (
        SessionView,
        Seq<ActionView>,
    ) {
        if self.phase is Closing {
            (self, Seq::empty())
        } else if element(params, 0) is None || !usable_wallet(params[0]) {
            self.close(CloseReason::AuthError)
        } else if self.worker is Some {
            (self, seq![ActionView::ToMiner(ack(id, true))])
        } else {
            let w = WorkerView::fresh(worker, params[0], self.id, now);
            (
                SessionView { phase: Phase::LoggedIn, worker: Some(w), ..self },
                seq![
                    ActionView::ToMiner(ack(id, true)),
                    ActionView::Login {
                        route: self.login_route(),
                        wallet: self.upstream_wallet(params[0]),
                        worker,
                    },
                    ActionView::Report(w),
                ],
            )
        }
    }

    /// The route the fee scheduler picks for the next share.
    pub open spec fn next_route(self) -> Route {
        decide(self.fee.mode(), self.fee.rate(), self.fee.total(), self.fee.dev())
    }

    /// A share, given the id it goes upstream with.
    ///
    /// The share is counted, queued and written to the pool of its route
    /// under the upstream id. A miner that has not logged in is refused at
    /// once.
    pub open spec fn submit(self, r: RequestView, upstream_id: u64, now: u64) -> (
        SessionView,
        Seq<ActionView>,
    ) {
        if self.phase is Closing {
            (self, Seq::empty())
        } else if self.worker is None {
            (self, seq![ActionView::ToMiner(unauthorized_answer(r.id))])
        } else {
            let route = self.next_route();
            (
                SessionView {
                    fee: self.fee.after(),
                    worker: Some(WorkerView { last_subwork_at: now, ..self.worker.unwrap() }),
                    pending: self.pending.push(
                        SubmitView { upstream_id, miner_id: r.id, route, answer: None },
                    ),
                    taken_in: self.taken_in.push(r.id),
                    ..self
                },
                seq![
                    ActionView::ToPool {
                        route,
                        message: MessageView::Submit(
                            RequestView { id: upstream_id, method: submit_method(), params: r.params },
                        ),
                    },
                ],
            )
        }
    }

    /// A hashrate report: it is noted and acknowledged, and goes no
    /// further.
    pub open spec fn hashrate(self, r: RequestView) -> (SessionView, Seq<ActionView>) {
        if self.phase is Closing {
            (self, Seq::empty())
        } else {
            match self.worker {
                Some(w) => {
                    let w2 = WorkerView { submit_hashrate: hashrate_of(r.params), ..w };
                    (
                        SessionView { worker: Some(w2), ..self },
                        seq![ActionView::ToMiner(ack(r.id, true)), ActionView::Report(w2)],
                    )
                },
                None => (self, seq![ActionView::ToMiner(ack(r.id, true))]),
            }
        }
    }

    /// A request for work: it is answered with the job forwarded last, or
    /// with `false` while there is none.
    pub open spec fn get_work(self, r: RequestView) -> (SessionView, Seq<ActionView>) {
        if self.phase is Closing {
            (self, Seq::empty())
        } else {
            match self.current_job {
                Some(job) => (
                    self,
                    seq![
                        ActionView::ToMiner(
                            MessageView::JobV1(PlainJobView::Plain(JobView { id: r.id, result: job })),
                        ),
                    ],
                ),
                None => (self, seq![ActionView::ToMiner(ack(r.id, false))]),
            }
        }
    }

    /// A line that is no message the proxy knows: it is logged and passed
    /// on as it came.
    pub open spec fn unknown(self, line: Seq<u8>) -> (SessionView, Seq<ActionView>) {
        if self.phase is Closing {
            (self, Seq::empty())
        } else {
            (self, seq![ActionView::Warn(Warning::UnknownMessage), ActionView::ForwardToPool(line)])
        }
    }

    /// A job from the real pool.
    ///
    /// It is forwarded to the miner and kept as the current job. For a
    /// Stratum 1.0.0 miner the difficulty slot is rewritten where the job
    /// has one; a job without the slot is forwarded as it is, with one
    /// warning per session.
    pub open spec fn job(self, m: MessageView) -> (SessionView, Seq<ActionView>) {
        if self.phase is Closing || job_result(m) is None {
            (self, Seq::empty())
        } else {
            let result = job_result(m).unwrap();
            let sent = if self.variant is EthStratum100 {
                with_diff(result, self.difficulty)
            } else {
                result
            };
            let next = SessionView {
                phase: if self.phase is LoggedIn {
                    Phase::Mining
                } else {
                    self.phase
                },
                current_job: Some(sent),
                warned: self.warned || result.len() <= 3,
                ..self
            };
            let forward = seq![ActionView::ToMiner(with_result(m, sent))];
            if result.len() <= 3 && !self.warned {
                (next, seq![ActionView::Warn(Warning::NoDifficultySlot)] + forward)
            } else {
                (next, forward)
            }
        }
    }

    /// The queue with the answer `m` noted at position `i`.
    pub open spec fn noted(self, i: int, m: MessageView) -> Seq<SubmitView> {
        self.pending.update(
            i,
            SubmitView { answer: Some(with_id(m, self.pending[i].miner_id)), ..self.pending[i] },
        )
    }

    /// The answer `m` to the share that went out along `route` under
    /// `upstream_id`.
    ///
    /// The answer is noted under the id the miner chose. Then every share
    /// at the head of the queue that has its answer is answered, in order,
    /// and counted for the worker; a share behind one that still waits
    /// keeps waiting. An answer to no waiting share is logged and dropped.
    pub open spec fn answer(self, route: Route, upstream_id: u64, m: MessageView) -> (
        SessionView,
        Seq<ActionView>,
    ) {
        if self.phase is Closing {
            (self, Seq::empty())
        } else if !waits(self.pending, route, upstream_id) || !is_answer(m) {
            (self, seq![ActionView::Warn(Warning::UnmatchedAnswer)])
        } else {
            let i = choose|i: int| waiting_at(self.pending, route, upstream_id, i);
            self.flush(self.noted(i, m))
        }
    }

    /// Answers every share at the head of `queue` that has its answer.
    pub open spec fn flush(self, queue: Seq<SubmitView>) -> (SessionView, Seq<ActionView>) {
        let n = ready(queue);
        if n == 0 || self.worker is None {
            (SessionView { pending: queue, ..self }, Seq::empty())
        } else {
            let w = counted(self.worker.unwrap(), queue, n);
            (
                SessionView {
                    worker: Some(w),
                    pending: queue.skip(n as int),
                    answered: self.answered + miner_ids(queue.take(n as int)),
                    ..self
                },
                answers(queue, n).push(ActionView::Report(w)),
            )
        }
    }

    /// The share that went out along `route` under `upstream_id` will get
    /// no answer from the pool: the miner is told that it was stale.
    pub open spec fn cancel(self, route: Route, upstream_id: u64, cause: Cancel) -> (
        SessionView,
        Seq<ActionView>,
    ) {
        if self.phase is Closing {
            (self, Seq::empty())
        } else if !waits(self.pending, route, upstream_id) {
            (self, seq![ActionView::Warn(Warning::UnmatchedAnswer)])
        } else {
            let i = choose|i: int| waiting_at(self.pending, route, upstream_id, i);
            let (next, actions) = self.flush(self.noted(i, stale_answer(self.pending[i].miner_id)));
            match cause {
                Cancel::SubmitTimeout => (
                    next,
                    seq![ActionView::Warn(Warning::SubmitTimeout)] + actions,
                ),
                Cancel::UpstreamReset => (next, actions),
            }
        }
    }
}


impl SessionView {
    /// What a message of the miner does; `None` stands for a document that
    /// is no request the proxy knows, `line` is the line it came in, and
    /// `upstream_id` the id that a share would go upstream with.
    pub open spec fn miner_step(
        self,
        message: Option<MessageView>,
        line: Seq<u8>,
        upstream_id: u64,
        now: u64,
    ) -> (SessionView, Seq<ActionView>) {
        match message {
            Some(MessageView::Login(r)) => self.login(
                r.id,
                r.params,
                crate::protocol::rpc::eth::worker_of_params(r.params),
                now,
            ),
            Some(MessageView::LoginWithWorker(r)) => self.login(r.id, r.params, r.worker, now),
            Some(MessageView::Submit(r)) => self.submit(r, upstream_id, now),
            Some(MessageView::Hashrate(r)) => self.hashrate(r),
            Some(MessageView::GetWork(r)) => self.get_work(r),
            Some(MessageView::Subscribe(r)) => self.subscribe(r),
            _ => self.unknown(line),
        }
    }

    /// Whether a message of the miner is a share that the session takes
    /// in.
    pub open spec fn takes_in(self, message: Option<MessageView>) -> bool {
        message is Some && message.unwrap() is Submit && !(self.phase is Closing)
            && self.worker is Some
    }
}

/// The ready shares at the head of a queue, counted from any point within
/// them.
pub proof fn lemma_ready_split(pending: Seq<SubmitView>, k: nat)
    requires
        k <= pending.len(),
        forall|j: int| 0 <= j < k ==> (#[trigger] pending[j]).answer is Some,
    ensures
        ready(pending) == k + ready(pending.skip(k as int)),
    decreases k,
{
    if k == 0 {
        assert(pending.skip(0) =~= pending);
    } else {
        let rest = pending.skip(1);
        assert forall|j: int| 0 <= j < k - 1 implies (#[trigger] rest[j]).answer is Some by {
            assert(rest[j] == pending[j + 1]);
        }
        assert(pending[0].answer is Some);
        lemma_ready_split(rest, (k - 1) as nat);
        assert(rest.skip(k - 1) =~= pending.skip(k as int));
    }
}

/// An answer written under a miner's id carries that id.
pub proof fn lemma_with_id(m: MessageView, id: u64)
    requires
        is_answer(m),
    ensures
        answer_id(with_id(m, id)) == Some(id),
        is_answer(with_id(m, id)),
{
}

/// The shares at the head of the queue that are ready all have their
/// answer, and the one behind them, if any, has none.
pub proof fn lemma_ready(pending: Seq<SubmitView>)
    ensures
        ready(pending) <= pending.len(),
        forall|k: int| 0 <= k < ready(pending) ==> (#[trigger] pending[k]).answer is Some,
        ready(pending) < pending.len() ==> pending[ready(pending) as int].answer is None,
    decreases pending.len(),
{
    if pending.len() > 0 && pending[0].answer is Some {
        let rest = pending.skip(1);
        lemma_ready(rest);
        assert forall|k: int| 0 <= k < ready(pending) implies (#[trigger] pending[k]).answer is Some by {
            if k > 0 {
                assert(pending[k] == rest[k - 1]);
            }
        }
        if ready(pending) < pending.len() {
            assert(pending[ready(pending) as int] == rest[ready(rest) as int]);
        }
    }
}

/// Counting `n` answers adds `n` to what the worker has accepted and
/// rejected together, and changes nothing else of the worker.
pub proof fn lemma_counted(worker: WorkerView, pending: Seq<SubmitView>, n: nat)
    requires
        n <= pending.len(),
        worker.accepted + worker.rejected + n <= u64::MAX,
    ensures
        counted(worker, pending, n).accepted + counted(worker, pending, n).rejected
            == worker.accepted + worker.rejected + n,
        counted(worker, pending, n) == (WorkerView {
            accepted: counted(worker, pending, n).accepted,
            rejected: counted(worker, pending, n).rejected,
            ..worker
        }),
    decreases n,
{
    if n > 0 {
        lemma_counted(worker, pending, (n - 1) as nat);
    }
}

/// A new session satisfies the invariant.
pub proof fn lemma_start(id: u64, fee: FeeCounter, unified_wallet: Seq<char>, difficulty: Seq<char>)
    requires
        fee.wf(),
        fee.total() == 0,
    ensures
        SessionView::start(id, fee, unified_wallet, difficulty).inv(),
{
    let s = SessionView::start(id, fee, unified_wallet, difficulty);
    assert(s.answered + miner_ids(s.pending) + s.abandoned =~= s.taken_in);
}

/// Ending a session keeps the invariant: what waited is abandoned, and
/// nothing is lost from the record of the shares taken in.
pub proof fn lemma_close(s: SessionView, reason: CloseReason)
    requires
        s.inv(),
    ensures
        s.close(reason).0.inv(),
        s.close(reason).0.phase is Closing,
{
    let n = s.close(reason).0;
    if !(s.phase is Closing) {
        assert(s.abandoned =~= Seq::<u64>::empty());
        assert(miner_ids(n.pending) =~= Seq::<u64>::empty());
        assert(n.answered + miner_ids(n.pending) + n.abandoned =~= s.answered + miner_ids(
            s.pending,
        ) + s.abandoned);
    }
}

/// Taking in a share keeps the invariant.
pub proof fn lemma_submit(s: SessionView, r: RequestView, upstream_id: u64, now: u64)
    requires
        s.inv(),
        s.fee.total() < u64::MAX,
    ensures
        s.submit(r, upstream_id, now).0.inv(),
{
    crate::fee::lemma_after(s.fee);
    let n = s.submit(r, upstream_id, now).0;
    if !(s.phase is Closing) && s.worker is Some {
        let entry = SubmitView { upstream_id, miner_id: r.id, route: s.next_route(), answer: None };
        assert(s.abandoned =~= Seq::<u64>::empty());
        assert(miner_ids(n.pending) =~= miner_ids(s.pending).push(r.id));
        assert(n.answered + miner_ids(n.pending) + n.abandoned =~= (s.answered + miner_ids(
            s.pending,
        ) + s.abandoned).push(r.id));
        assert forall|i: int|
            0 <= i < n.pending.len() && (#[trigger] n.pending[i]).answer is Some implies answer_id(
            n.pending[i].answer.unwrap(),
        ) == Some(n.pending[i].miner_id) by {
            assert(n.pending[i] == s.pending[i]);
        }
    }
}

/// The handlers that touch neither queue nor counters keep the invariant.
pub proof fn lemma_quiet_steps(s: SessionView, r: RequestView, line: Seq<u8>, m: MessageView, worker: Seq<char>, now: u64)
    requires
        s.inv(),
    ensures
        s.subscribe(r).0.inv(),
        s.login(r.id, r.params, worker, now).0.inv(),
        s.hashrate(r).0.inv(),
        s.get_work(r).0.inv(),
        s.unknown(line).0.inv(),
        s.job(m).0.inv(),
{
    lemma_close(s, CloseReason::AuthError);
    let l = s.login(r.id, r.params, worker, now).0;
    if l.worker is Some && s.worker is None {
        assert(s.answered =~= Seq::<u64>::empty());
    }
}

/// What answering the head of the queue does.
///
/// The answers written are those of the shares at the head of the queue, in
/// the order the shares were taken in, each under the id the miner gave the
/// share; the record of answers grows by exactly these; and the invariant
/// is kept.
pub proof fn lemma_flush(s: SessionView, queue: Seq<SubmitView>)
    requires
        s.inv(),
        !(s.phase is Closing),
        miner_ids(queue) == miner_ids(s.pending),
        correlated(queue),
    ensures
        s.flush(queue).0.inv(),
        s.flush(queue).0.answered == s.answered + s.taken_in.subrange(
            s.answered.len() as int,
            (s.answered.len() + ready(queue)) as int,
        ),
        s.flush(queue).1.len() >= ready(queue),
        forall|k: int|
            0 <= k < ready(queue) ==> (#[trigger] s.flush(queue).1[k]) == ActionView::ToMiner(
                queue[k].answer.unwrap(),
            ) && answer_id(queue[k].answer.unwrap()) == Some(s.taken_in[s.answered.len() + k]),
{
    let n = ready(queue);
    let next = s.flush(queue).0;
    lemma_ready(queue);
    assert(s.abandoned =~= Seq::<u64>::empty());
    assert(s.taken_in =~= s.answered + miner_ids(queue));
    assert(queue.len() == miner_ids(queue).len());
    assert(miner_ids(queue.take(n as int)) =~= s.taken_in.subrange(
        s.answered.len() as int,
        (s.answered.len() + n) as int,
    )) by {
        assert forall|k: int| 0 <= k < n implies miner_ids(queue.take(n as int))[k]
            == s.taken_in[s.answered.len() + k] by {
            assert(miner_ids(queue)[k] == queue[k].miner_id);
        }
    }
    if n == 0 || s.worker is None {
        assert(s.taken_in.subrange(s.answered.len() as int, (s.answered.len() + n) as int) =~= Seq::<
            u64,
        >::empty()) by {
            if s.worker is None {
                assert(queue.len() == 0);
            }
        }
        assert(s.answered + Seq::<u64>::empty() =~= s.answered);
    } else {
        let w0 = s.worker.unwrap();
        assert(w0.accepted + w0.rejected + n <= u64::MAX) by {
            crate::fee::lemma_counts_fit(s.fee);
            assert(s.taken_in.len() == s.answered.len() + queue.len());
        }
        lemma_counted(w0, queue, n);
        assert(miner_ids(queue.skip(n as int)) =~= miner_ids(queue).skip(n as int));
        assert(miner_ids(queue.take(n as int)) =~= miner_ids(queue).take(n as int));
        assert(next.answered + miner_ids(next.pending) + next.abandoned =~= s.answered
            + miner_ids(queue));
        assert forall|i: int|
            0 <= i < next.pending.len() && (#[trigger] next.pending[i]).answer is Some implies answer_id(
            next.pending[i].answer.unwrap(),
        ) == Some(next.pending[i].miner_id) by {
            assert(next.pending[i] == queue[i + n]);
        }
        assert forall|k: int| 0 <= k < n implies (#[trigger] s.flush(queue).1[k])
            == ActionView::ToMiner(queue[k].answer.unwrap()) && answer_id(
            queue[k].answer.unwrap(),
        ) == Some(s.taken_in[s.answered.len() + k]) by {
            assert(answers(queue, n)[k] == ActionView::ToMiner(queue[k].answer.unwrap()));
            assert(queue[k].answer is Some);
            assert(miner_ids(queue)[k] == queue[k].miner_id);
        }
    }
}

/// Noting an answer changes no miner id and keeps the answers correlated.
pub proof fn lemma_noted(s: SessionView, i: int, m: MessageView)
    requires
        s.inv(),
        0 <= i < s.pending.len(),
        is_answer(m),
    ensures
        miner_ids(s.noted(i, m)) == miner_ids(s.pending),
        correlated(s.noted(i, m)),
{
    lemma_with_id(m, s.pending[i].miner_id);
    let q = s.noted(i, m);
    assert(miner_ids(q) =~= miner_ids(s.pending));
    assert forall|k: int| 0 <= k < q.len() && (#[trigger] q[k]).answer is Some implies answer_id(
        q[k].answer.unwrap(),
    ) == Some(q[k].miner_id) by {
        if k != i {
            assert(q[k] == s.pending[k]);
        }
    }
}

/// An answer of the pool and a cancellation keep the invariant.
pub proof fn lemma_answer(s: SessionView, route: Route, upstream_id: u64, m: MessageView, cause: Cancel)
    requires
        s.inv(),
    ensures
        s.answer(route, upstream_id, m).0.inv(),
        s.cancel(route, upstream_id, cause).0.inv(),
{
    if !(s.phase is Closing) && waits(s.pending, route, upstream_id) {
        let i = choose|i: int| waiting_at(s.pending, route, upstream_id, i);
        if is_answer(m) {
            lemma_noted(s, i, m);
            lemma_flush(s, s.noted(i, m));
        }
        let stale = stale_answer(s.pending[i].miner_id);
        lemma_noted(s, i, stale);
        lemma_flush(s, s.noted(i, stale));
    }
}

/// Answers are written in the order the shares came: at all times the ids
/// answered so far are the first of the ids taken in, and every share taken
/// in is answered, waiting, or was abandoned when the session ended.
pub proof fn lemma_answers_in_order(s: SessionView)
    requires
        s.inv(),
    ensures
        s.answered.len() <= s.taken_in.len(),
        s.answered == s.taken_in.take(s.answered.len() as int),
        s.taken_in.len() == s.answered.len() + s.pending.len() + s.abandoned.len(),
        !(s.phase is Closing) ==> s.taken_in.len() == s.answered.len() + s.pending.len(),
{
    assert(s.taken_in.take(s.answered.len() as int) =~= s.answered);
}

} // verus!
