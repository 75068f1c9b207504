//! The session as it runs.
//!
//! The session takes in what the miner sends and what the upstream side
//! reports, and says what is to be written where. It performs no I/O: every
//! handler returns the actions for its caller to carry out, and its contract
//! is the corresponding step of the model.

use crate::fee::FeeCounter;
use crate::fee::Route;
use crate::protocol::json::Json;
use crate::protocol::message::Acknowledgement;
use crate::protocol::message::Job;
use crate::protocol::message::Message;
use crate::protocol::message::MessageView;
use crate::protocol::message::login_method;
use crate::protocol::rpc::eth::Client;
use crate::protocol::rpc::eth::ClientWithWorkerName;
use crate::protocol::rpc::eth::NamedRequestView;
use crate::protocol::rpc::eth::EthError;
use crate::protocol::rpc::eth::Server;
use crate::protocol::rpc::eth::ServerError;
use crate::protocol::rpc::eth::ServerId;
use crate::protocol::rpc::eth::ServerId1;
use crate::protocol::rpc::eth::ServerJobsWithHeight;
use crate::protocol::rpc::eth::ServerRootError;
use crate::protocol::rpc::eth::ServerRootErrorValue;
use crate::protocol::rpc::eth::ServerSideJob;
use crate::session::model::ack;
use crate::session::model::is_answer;
use crate::session::model::says_accepted;
use crate::session::model::stale_answer;
use crate::session::model::unauthorized_answer;
use crate::session::model::with_id;
use crate::session::model::with_result;
use crate::session::model::ActionView;
use crate::session::model::CloseReason;
use crate::session::model::SubmitView;
use crate::session::model::Warning;
use crate::session::model::STALE_CODE;
use crate::session::model::UNAUTHORIZED_CODE;
use crate::protocol::error::ProtocolError;
use crate::protocol::json::document;
use crate::protocol::json::parse;
use crate::protocol::rpc::eth::worker_from_params;
use crate::protocol::rpc::eth::RequestView;
use crate::session::model::lemma_close;
use crate::session::model::lemma_flush;
use crate::session::model::lemma_noted;
use crate::session::model::lemma_quiet_steps;
use crate::session::model::lemma_ready;
use crate::session::model::lemma_ready_split;
use crate::session::model::lemma_start;
use crate::session::model::lemma_submit;
use crate::session::model::answers;
use crate::session::model::counted;
use crate::session::model::miner_ids;
use crate::session::model::ready;
use crate::session::model::waiting_at;
use crate::session::model::waits;
use crate::session::model::Cancel;
use crate::session::model::Phase;
use crate::session::model::ProtocolVariant;
use crate::session::model::SessionView;
use crate::state::Worker;
use crate::protocol::message::copy_list;
use crate::upstream::job_result;
use crate::upstream::job_result_of;
use crate::upstream::pool_of;
use crate::upstream::untouched;
use crate::upstream::InFlight;
use crate::upstream::Multiplexer;
use crate::upstream::Pool;
use crate::upstream::UpstreamView;
use crate::util::config::ShareMode;
use crate::util::text::is_graphic;
use vstd::prelude::*;

verus! {

/// A share that waits for its answer.
#[derive(Debug, PartialEq)]
pub struct Submit {
    /// The id the share went upstream with.
    pub upstream_id: u64,
    /// The id the miner chose.
    pub miner_id: u64,
    /// Where the fee scheduler sent it.
    pub route: Route,
    /// The answer to write to the miner, once there is one.
    pub answer: Option<Message>,
}

impl View for Submit {
    type V = SubmitView;

    open spec fn view(&self) -> SubmitView {
        SubmitView {
            upstream_id: self.upstream_id,
            miner_id: self.miner_id,
            route: self.route,
            answer: match self.answer {
                Some(m) => Some(m@),
                None => None,
            },
        }
    }
}

/// What a handler asks its caller to do.
#[derive(Debug, PartialEq)]
pub enum Action {
    /// Write this message to the miner.
    ToMiner(Message),
    /// Write this message to the pool of this route.
    ToPool { route: Route, message: Message },
    /// Pass this line on to the real pool as it came.
    ForwardToPool(Vec<u8>),
    /// Log in upstream for this session with this wallet and worker.
    Login { route: Route, wallet: String, worker: String },
    /// Hand this snapshot to telemetry.
    Report(Worker),
    /// Write this to the log.
    Warn(Warning),
    /// Close the miner's connection and forget the session upstream.
    Close(CloseReason),
}

impl View for Action {
    type V = ActionView;

    open spec fn view(&self) -> ActionView {
        match self {
            Action::ToMiner(m) => ActionView::ToMiner(m@),
            Action::ToPool { route, message } => ActionView::ToPool {
                route: *route,
                message: message@,
            },
            Action::ForwardToPool(line) => ActionView::ForwardToPool(line@),
            Action::Login { route, wallet, worker } => ActionView::Login {
                route: *route,
                wallet: wallet@,
                worker: worker@,
            },
            Action::Report(w) => ActionView::Report(w@),
            Action::Warn(w) => ActionView::Warn(*w),
            Action::Close(r) => ActionView::Close(*r),
        }
    }
}

/// The views of a list of actions.
pub open spec fn action_views(actions: Seq<Action>) -> Seq<ActionView> {
    Seq::new(actions.len(), |i: int| actions[i]@)
}

/// The views of a queue of shares.
pub open spec fn submit_views(pending: Seq<Submit>) -> Seq<SubmitView> {
    Seq::new(pending.len(), |i: int| pending[i]@)
}

/// Every message in the list can be written out.
pub open spec fn all_writable(actions: Seq<Action>) -> bool {
    forall|i: int|
        0 <= i < actions.len() ==> match #[trigger] actions[i] {
            Action::ToMiner(m) => m.writable(),
            Action::ToPool { route, message } => message.writable(),
            _ => true,
        }
}

/// A plain acknowledgement.
pub fn ack_message(id: u64, result: bool) -> (m: Message)
    ensures
        m@ == ack(id, result),
        m.writable(),
{
    Message::Ack(Acknowledgement::Plain(ServerId1 { id, result }))
}

/// The answer that stands in for the pool's when a share is cancelled.
pub fn stale_message(miner_id: u64) -> (m: Message)
    ensures
        m@ == stale_answer(miner_id),
        m.writable(),
{
    Message::ErrObj(
        ServerError {
            id: miner_id,
            result: false,
            error: EthError { code: STALE_CODE, message: String::from_str("stale") },
        },
    )
}

/// The answer to a share of a miner that has not logged in.
pub fn unauthorized_message(miner_id: u64) -> (m: Message)
    ensures
        m@ == unauthorized_answer(miner_id),
        m.writable(),
{
    Message::ErrObj(
        ServerError {
            id: miner_id,
            result: false,
            error: EthError {
                code: UNAUTHORIZED_CODE,
                message: String::from_str("unauthorized worker"),
            },
        },
    )
}

/// The id of a login that the proxy sends upstream. No share carries it:
/// the ids of shares start at 1.
pub const LOGIN_ID: u64 = 0;

/// The login that the proxy sends upstream for `wallet` and `worker`.
pub open spec fn login_view(wallet: Seq<char>, worker: Seq<char>) -> MessageView {
    MessageView::LoginWithWorker(
        NamedRequestView {
            id: LOGIN_ID,
            method: login_method(),
            params: seq![wallet, "x"@],
            worker,
        },
    )
}

/// Builds the login that the proxy sends upstream for `wallet` and
/// `worker`: `eth_submitLogin` with the wallet and the password `x`.
pub fn login_message(wallet: String, worker: String) -> (m: Message)
    ensures
        m@ == login_view(wallet@, worker@),
        m@.wf(),
        m@.from_miner(),
        m.writable(),
{
    let mut params: Vec<String> = Vec::new();
    params.push(wallet);
    params.push(String::from_str("x"));
    proof {
        assert(params.deep_view() =~= seq![wallet@, "x"@]);
    }
    Message::LoginWithWorker(
        ClientWithWorkerName {
            id: LOGIN_ID,
            method: String::from_str("eth_submitLogin"),
            params,
            worker,
        },
    )
}

/// Whether a message is an answer to a request.
pub fn is_answer_message(m: &Message) -> (r: bool)
    ensures
        r == is_answer(m@),
{
    match m {
        Message::Ack(_) => true,
        Message::ErrObj(_) => true,
        Message::ErrTuple(_) => true,
        Message::ErrString(_) => true,
        _ => false,
    }
}

/// Whether an answer says that the share was accepted.
pub fn says_accepted_message(m: &Message) -> (r: bool)
    ensures
        r == says_accepted(m@),
{
    match m {
        Message::Ack(Acknowledgement::Plain(a)) => a.result,
        Message::Ack(Acknowledgement::Versioned(a)) => a.result,
        Message::ErrObj(e) => e.result,
        Message::ErrTuple(e) => e.result,
        Message::ErrString(e) => match &e.result {
            Json::Bool(b) => *b,
            _ => false,
        },
        _ => false,
    }
}

/// A pool's answer under the id the miner chose.
pub fn with_id_message(m: Message, id: u64) -> (r: Message)
    ensures
        r@ == with_id(m@, id),
        m.writable() ==> r.writable(),
{
    match m {
        Message::Ack(Acknowledgement::Plain(a)) => Message::Ack(
            Acknowledgement::Plain(ServerId1 { id, result: a.result }),
        ),
        Message::Ack(Acknowledgement::Versioned(a)) => Message::Ack(
            Acknowledgement::Versioned(ServerId { id, jsonrpc: a.jsonrpc, result: a.result }),
        ),
        Message::ErrObj(e) => Message::ErrObj(
            ServerError { id, result: e.result, error: e.error },
        ),
        Message::ErrTuple(e) => if id <= i64::MAX as u64 {
            Message::ErrTuple(ServerRootError { id: id as i64, result: e.result, error: e.error })
        } else {
            let code: u64 = if e.error.0 >= 0 {
                e.error.0 as u64
            } else {
                0
            };
            Message::ErrObj(
                ServerError { id, result: e.result, error: EthError { code, message: e.error.1 } },
            )
        },
        Message::ErrString(e) => if id <= i64::MAX as u64 {
            Message::ErrString(
                ServerRootErrorValue { id: id as i64, result: e.result, error: e.error },
            )
        } else {
            let result = match &e.result {
                Json::Bool(b) => *b,
                _ => false,
            };
            Message::ErrObj(
                ServerError { id, result, error: EthError { code: 0, message: e.error } },
            )
        },
        other => other,
    }
}

/// A job with its result replaced.
pub fn with_result_message(m: Message, result: Vec<String>) -> (r: Message)
    ensures
        r@ == with_result(m@, result.deep_view()),
        m.writable() ==> r.writable(),
{
    match m {
        Message::JobV1(Job::Plain(j)) => Message::JobV1(Job::Plain(Server { id: j.id, result })),
        Message::JobV1(Job::Versioned(j)) => Message::JobV1(
            Job::Versioned(ServerSideJob { id: j.id, jsonrpc: j.jsonrpc, result }),
        ),
        Message::JobWithHeight(j) => Message::JobWithHeight(
            ServerJobsWithHeight { id: j.id, result, jsonrpc: j.jsonrpc, height: j.height },
        ),
        other => other,
    }
}


/// One miner's connection.
pub struct Session {
    id: u64,
    fee: FeeCounter,
    mode: ShareMode,
    unified_wallet: String,
    difficulty: String,
    phase: Phase,
    variant: ProtocolVariant,
    worker: Option<Worker>,
    pending: Vec<Submit>,
    current_job: Option<Vec<String>>,
    warned: bool,
    taken_in: Ghost<Seq<u64>>,
    answered: Ghost<Seq<u64>>,
    abandoned: Ghost<Seq<u64>>,
}

impl View for Session {
    type V = SessionView;

    closed spec fn view(&self) -> SessionView {
        SessionView {
            id: self.id,
            fee: self.fee,
            unified_wallet: self.unified_wallet@,
            difficulty: self.difficulty@,
            phase: self.phase,
            variant: self.variant,
            worker: match self.worker {
                Some(w) => Some(w@),
                None => None,
            },
            pending: submit_views(self.pending@),
            current_job: match self.current_job {
                Some(j) => Some(j.deep_view()),
                None => None,
            },
            warned: self.warned,
            taken_in: self.taken_in@,
            answered: self.answered@,
            abandoned: self.abandoned@,
        }
    }
}

impl Session {
    /// The invariant of the model holds, and every answer that waits in the
    /// queue can be written out.
    pub closed spec fn wf(&self) -> bool {
        &&& self@.inv()
        &&& self.mode == self.fee.mode()
        &&& forall|i: int|
            0 <= i < self.pending@.len() ==> match (#[trigger] self.pending@[i]).answer {
                Some(m) => m.writable(),
                None => true,
            }
    }

    /// A session for a miner that has just connected.
    ///
    /// `id` numbers the session on its listener, `mode` and `rate` are the
    /// listener's fee settings, `unified_wallet` is the wallet of unified
    /// mode and `difficulty` what is written into the difficulty slot of a
    /// Stratum miner's jobs.
    pub fn new(id: u64, mode: ShareMode, rate: u64, unified_wallet: String, difficulty: String) -> (s:
        Session)
        requires
            rate <= 100,
        ensures
            s.wf(),
            s@.inv(),
            s@.id == id,
            s@.fee.wf(),
            s@.fee.mode() == mode,
            s@.fee.rate() == rate,
            s@.fee.total() == 0,
            s@.fee.dev() == 0,
            s@.fee.unified() == 0,
            s@ == SessionView::start(id, s@.fee, unified_wallet@, difficulty@),
    {
        let fee = FeeCounter::new(mode, rate);
        let s = Session {
            id,
            fee,
            mode,
            unified_wallet,
            difficulty,
            phase: Phase::Connected,
            variant: ProtocolVariant::EthGetwork,
            worker: None,
            pending: Vec::new(),
            current_job: None,
            warned: false,
            taken_in: Ghost(Seq::empty()),
            answered: Ghost(Seq::empty()),
            abandoned: Ghost(Seq::empty()),
        };
        proof {
            assert(submit_views(s.pending@) =~= Seq::<SubmitView>::empty());
            lemma_start(id, fee, unified_wallet@, difficulty@);
        }
        s
    }

    /// A well-formed session satisfies the invariant of the model: every
    /// share taken in is answered, waiting or abandoned, in the order the
    /// shares came, and the counters add up.
    pub proof fn lemma_invariant(&self)
        requires
            self.wf(),
        ensures
            self@.inv(),
    {
    }

    /// Where the session stands.
    pub fn phase(&self) -> (p: Phase)
        ensures
            p == self@.phase,
    {
        self.phase
    }

    /// The dialect the miner speaks.
    pub fn variant(&self) -> (v: ProtocolVariant)
        ensures
            v == self@.variant,
    {
        self.variant
    }

    /// The session's number on its listener.
    pub fn id(&self) -> (id: u64)
        ensures
            id == self@.id,
    {
        self.id
    }

    /// The share counters.
    pub fn fee(&self) -> (fee: FeeCounter)
        ensures
            fee == self@.fee,
    {
        self.fee
    }

    /// A snapshot of the worker, once logged in.
    pub fn worker(&self) -> (w: Option<Worker>)
        ensures
            match w {
                Some(w) => self@.worker == Some(w@),
                None => self@.worker is None,
            },
    {
        match &self.worker {
            Some(w) => Some(w.snapshot()),
            None => None,
        }
    }

    /// The number of shares that wait for an answer.
    pub fn waiting(&self) -> (n: usize)
        ensures
            n == self@.pending.len(),
    {
        self.pending.len()
    }

    /// Whether another share can be counted.
    pub fn has_room(&self) -> (b: bool)
        ensures
            b == (self@.fee.total() < u64::MAX),
    {
        self.fee.has_room()
    }

    /// The session ends.
    pub fn close(&mut self, reason: CloseReason) -> (actions: Vec<Action>)
        requires
            old(self).wf(),
        ensures
            final(self).wf(),
            final(self)@.inv(),
            final(self)@ == old(self)@.close(reason).0,
            action_views(actions@) == old(self)@.close(reason).1,
            all_writable(actions@),
    {
        let mut actions: Vec<Action> = Vec::new();
        proof {
            lemma_close(self@, reason);
        }
        if let Phase::Closing = self.phase {
            proof {
                assert(action_views(actions@) =~= Seq::<ActionView>::empty());
            }
            return actions;
        }
        self.phase = Phase::Closing;
        proof {
            self.abandoned = Ghost(miner_ids(submit_views(self.pending@)));
        }
        self.pending = Vec::new();
        actions.push(Action::Close(reason));
        proof {
            assert(submit_views(self.pending@) =~= Seq::<SubmitView>::empty());
            assert(action_views(actions@) =~= seq![ActionView::Close(reason)]);
        }
        actions
    }

    /// The miner closed its connection.
    pub fn on_miner_closed(&mut self) -> (actions: Vec<Action>)
        requires
            old(self).wf(),
        ensures
            final(self).wf(),
            final(self)@.inv(),
            final(self)@ == old(self)@.close(CloseReason::MinerGone).0,
            action_views(actions@) == old(self)@.close(CloseReason::MinerGone).1,
            all_writable(actions@),
    {
        self.close(CloseReason::MinerGone)
    }

    /// The upstream connection is gone and cannot be reopened.
    pub fn on_upstream_gone(&mut self) -> (actions: Vec<Action>)
        requires
            old(self).wf(),
        ensures
            final(self).wf(),
            final(self)@.inv(),
            final(self)@ == old(self)@.close(CloseReason::UpstreamGone).0,
            action_views(actions@) == old(self)@.close(CloseReason::UpstreamGone).1,
            all_writable(actions@),
    {
        self.close(CloseReason::UpstreamGone)
    }

    /// The miner's stream broke the framing or held a line that is no JSON.
    pub fn on_protocol_error(&mut self, error: ProtocolError) -> (actions: Vec<Action>)
        requires
            old(self).wf(),
        ensures
            final(self).wf(),
            final(self)@.inv(),
            final(self)@ == old(self)@.close(CloseReason::Protocol(error)).0,
            action_views(actions@) == old(self)@.close(CloseReason::Protocol(error)).1,
            all_writable(actions@),
    {
        self.close(CloseReason::Protocol(error))
    }

    /// A subscription.
    pub fn on_subscribe(&mut self, request: &Client) -> (actions: Vec<Action>)
        requires
            old(self).wf(),
        ensures
            final(self).wf(),
            final(self)@.inv(),
            final(self)@ == old(self)@.subscribe(request@).0,
            action_views(actions@) == old(self)@.subscribe(request@).1,
            all_writable(actions@),
    {
        let mut actions: Vec<Action> = Vec::new();
        proof {
            lemma_quiet_steps(self@, request@, Seq::empty(), ack(0, true), Seq::empty(), 0);
        }
        if let Phase::Closing = self.phase {
            proof {
                assert(action_views(actions@) =~= Seq::<ActionView>::empty());
            }
            return actions;
        }
        if let Phase::Connected = self.phase {
            self.phase = Phase::Subscribed;
        }
        if crate::protocol::rpc::eth::ClientRpc::if_parse_protocol_eth_statum(request) {
            self.variant = ProtocolVariant::EthStratum100;
        }
        actions.push(Action::ToMiner(ack_message(request.id, true)));
        proof {
            assert(action_views(actions@) =~= seq![ActionView::ToMiner(ack(request.id, true))]);
        }
        actions
    }

    /// A login with the given id, parameters and effective worker name.
    pub fn on_login(&mut self, id: u64, params: &Vec<String>, worker: String, now: u64) -> (actions:
        Vec<Action>)
        requires
            old(self).wf(),
        ensures
            final(self).wf(),
            final(self)@.inv(),
            final(self)@ == old(self)@.login(id, params.deep_view(), worker@, now).0,
            action_views(actions@) == old(self)@.login(id, params.deep_view(), worker@, now).1,
            all_writable(actions@),
    {
        let mut actions: Vec<Action> = Vec::new();
        proof {
            lemma_quiet_steps(
                self@,
                RequestView { id, method: Seq::empty(), params: params.deep_view() },
                Seq::empty(),
                ack(0, true),
                worker@,
                now,
            );
        }
        if let Phase::Closing = self.phase {
            proof {
                assert(action_views(actions@) =~= Seq::<ActionView>::empty());
            }
            return actions;
        }
        if params.len() == 0 {
            return self.close(CloseReason::AuthError);
        }
        let wallet = params[0].as_str();
        if wallet.unicode_len() == 0 || !is_graphic(wallet) {
            return self.close(CloseReason::AuthError);
        }
        if self.worker.is_some() {
            actions.push(Action::ToMiner(ack_message(id, true)));
            proof {
                assert(action_views(actions@) =~= seq![ActionView::ToMiner(ack(id, true))]);
            }
            return actions;
        }
        let w = Worker::new(worker.clone(), params[0].clone(), self.id, now);
        let report = w.snapshot();
        let (route, upstream_wallet) = match self.mode {
            ShareMode::UnifiedWallet => (Route::Unified, self.unified_wallet.clone()),
            _ => (Route::Real, params[0].clone()),
        };
        self.worker = Some(w);
        self.phase = Phase::LoggedIn;
        actions.push(Action::ToMiner(ack_message(id, true)));
        actions.push(Action::Login { route, wallet: upstream_wallet, worker });
        actions.push(Action::Report(report));
        proof {
            assert(action_views(actions@) =~= old(self)@.login(
                id,
                params.deep_view(),
                worker@,
                now,
            ).1);
        }
        actions
    }

    /// A hashrate report.
    pub fn on_hashrate(&mut self, id: u64, params: &Vec<String>) -> (actions: Vec<Action>)
        requires
            old(self).wf(),
        ensures
            final(self).wf(),
            final(self)@.inv(),
            final(self)@ == old(self)@.hashrate(
                RequestView { id, method: Seq::empty(), params: params.deep_view() },
            ).0,
            action_views(actions@) == old(self)@.hashrate(
                RequestView { id, method: Seq::empty(), params: params.deep_view() },
            ).1,
            all_writable(actions@),
    {
        let ghost r = RequestView { id, method: Seq::empty(), params: params.deep_view() };
        let mut actions: Vec<Action> = Vec::new();
        proof {
            lemma_quiet_steps(self@, r, Seq::empty(), ack(0, true), Seq::empty(), 0);
        }
        if let Phase::Closing = self.phase {
            proof {
                assert(action_views(actions@) =~= Seq::<ActionView>::empty());
            }
            return actions;
        }
        let rate = if params.len() > 0 {
            crate::util::hex::parse_hex(params[0].as_str())
        } else {
            0
        };
        actions.push(Action::ToMiner(ack_message(id, true)));
        match self.worker.take() {
            Some(mut w) => {
                w.submit_hashrate = rate;
                actions.push(Action::Report(w.snapshot()));
                self.worker = Some(w);
            },
            None => {},
        }
        proof {
            assert(action_views(actions@) =~= old(self)@.hashrate(r).1);
        }
        actions
    }

    /// A request for work.
    pub fn on_get_work(&mut self, id: u64) -> (actions: Vec<Action>)
        requires
            old(self).wf(),
        ensures
            final(self).wf(),
            final(self)@.inv(),
            final(self)@ == old(self)@,
            action_views(actions@) == old(self)@.get_work(
                RequestView { id, method: Seq::empty(), params: Seq::empty() },
            ).1,
            all_writable(actions@),
    {
        let ghost r = RequestView { id, method: Seq::empty(), params: Seq::empty() };
        let mut actions: Vec<Action> = Vec::new();
        if let Phase::Closing = self.phase {
            proof {
                assert(action_views(actions@) =~= Seq::<ActionView>::empty());
            }
            return actions;
        }
        match &self.current_job {
            Some(job) => {
                let result = copy_list(job);
                actions.push(Action::ToMiner(Message::JobV1(Job::Plain(Server { id, result }))));
            },
            None => {
                actions.push(Action::ToMiner(ack_message(id, false)));
            },
        }
        proof {
            assert(action_views(actions@) =~= old(self)@.get_work(r).1);
        }
        actions
    }

    /// A line that is no message the proxy knows.
    pub fn on_unknown(&mut self, line: &[u8]) -> (actions: Vec<Action>)
        requires
            old(self).wf(),
        ensures
            final(self).wf(),
            final(self)@.inv(),
            final(self)@ == old(self)@,
            action_views(actions@) == old(self)@.unknown(line@).1,
            all_writable(actions@),
    {
        let mut actions: Vec<Action> = Vec::new();
        if let Phase::Closing = self.phase {
            proof {
                assert(action_views(actions@) =~= Seq::<ActionView>::empty());
            }
            return actions;
        }
        let copy = vstd::slice::slice_to_vec(line);
        actions.push(Action::Warn(Warning::UnknownMessage));
        actions.push(Action::ForwardToPool(copy));
        proof {
            assert(action_views(actions@) =~= old(self)@.unknown(line@).1);
        }
        actions
    }

    /// A job from the real pool.
    pub fn on_job(&mut self, job: Message) -> (actions: Vec<Action>)
        requires
            old(self).wf(),
            job.writable(),
        ensures
            final(self).wf(),
            final(self)@.inv(),
            final(self)@ == old(self)@.job(job@).0,
            action_views(actions@) == old(self)@.job(job@).1,
            all_writable(actions@),
    {
        let mut actions: Vec<Action> = Vec::new();
        proof {
            lemma_quiet_steps(
                self@,
                RequestView { id: 0, method: Seq::empty(), params: Seq::empty() },
                Seq::empty(),
                job@,
                Seq::empty(),
                0,
            );
        }
        if let Phase::Closing = self.phase {
            proof {
                assert(action_views(actions@) =~= Seq::<ActionView>::empty());
            }
            return actions;
        }
        let mut result = match job_result_of(&job) {
            Some(r) => r,
            None => {
                proof {
                    assert(action_views(actions@) =~= Seq::<ActionView>::empty());
                }
                return actions;
            },
        };
        let has_slot = result.len() > 3;
        if let ProtocolVariant::EthStratum100 = self.variant {
            if has_slot {
                result[3] = self.difficulty.clone();
                proof {
                    assert(result.deep_view() =~= job_result(job@).unwrap().update(
                        3,
                        self.difficulty@,
                    ));
                }
            }
        }
        if !has_slot && !self.warned {
            actions.push(Action::Warn(Warning::NoDifficultySlot));
        }
        if !has_slot {
            self.warned = true;
        }
        if let Phase::LoggedIn = self.phase {
            self.phase = Phase::Mining;
        }
        self.current_job = Some(copy_list(&result));
        actions.push(Action::ToMiner(with_result_message(job, result)));
        proof {
            assert(action_views(actions@) =~= old(self)@.job(job@).1);
        }
        actions
    }
}


/// The multiplexer has one more request in flight, on the connection of
/// `route`, and is otherwise as it was.
pub open spec fn reserved(
    before: &Multiplexer,
    after: &Multiplexer,
    route: Route,
    session: u64,
    miner_id: u64,
    now: u64,
) -> bool {
    &&& after.conn(pool_of(route)) == (UpstreamView {
        next_id: (before.conn(pool_of(route)).next_id + 1) as u64,
        in_flight: before.conn(pool_of(route)).in_flight.push(
            InFlight {
                upstream_id: before.conn(pool_of(route)).next_id,
                session,
                miner_id,
                route,
                sent_at: now,
            },
        ),
        ..before.conn(pool_of(route))
    })
    &&& forall|pool: Pool| pool != pool_of(route) ==> #[trigger] after.conn(pool) == before.conn(pool)
    &&& forall|pool: Pool| #[trigger] after.dialer(pool) == before.dialer(pool)
}

impl Session {
    /// A share.
    ///
    /// The fee scheduler picks the route, the multiplexer hands out the id,
    /// and the share goes to the pool of its route under that id.
    pub fn on_submit(&mut self, mux: &mut Multiplexer, id: u64, params: Vec<String>, now: u64) -> (actions:
        Vec<Action>)
        requires
            old(self).wf(),
            old(mux).wf(),
            old(self)@.fee.total() < u64::MAX,
            old(mux).room(Route::Real),
            old(mux).room(Route::Dev),
        ensures
            final(self).wf(),
            final(self)@.inv(),
            final(mux).wf(),
            final(self)@ == old(self)@.submit(
                RequestView { id, method: Seq::empty(), params: params.deep_view() },
                old(mux).conn(pool_of(old(self)@.next_route())).next_id,
                now,
            ).0,
            action_views(actions@) == old(self)@.submit(
                RequestView { id, method: Seq::empty(), params: params.deep_view() },
                old(mux).conn(pool_of(old(self)@.next_route())).next_id,
                now,
            ).1,
            all_writable(actions@),
            if !(old(self)@.phase is Closing) && old(self)@.worker is Some {
                reserved(old(mux), final(mux), old(self)@.next_route(), old(self)@.id, id, now)
            } else {
                untouched(old(mux), final(mux))
            },
    {
        let ghost r = RequestView { id, method: Seq::empty(), params: params.deep_view() };
        let ghost upstream = mux.conn(pool_of(self@.next_route())).next_id;
        let mut actions: Vec<Action> = Vec::new();
        proof {
            lemma_submit(self@, r, upstream, now);
        }
        if let Phase::Closing = self.phase {
            proof {
                assert(action_views(actions@) =~= Seq::<ActionView>::empty());
            }
            return actions;
        }
        let mut w = match self.worker.take() {
            Some(w) => w,
            None => {
                actions.push(Action::ToMiner(unauthorized_message(id)));
                proof {
                    assert(action_views(actions@) =~= seq![
                        ActionView::ToMiner(unauthorized_answer(id)),
                    ]);
                }
                return actions;
            },
        };
        let route = self.fee.route();
        let upstream_id = mux.reserve(route, self.id, id, now);
        w.last_subwork_at = now;
        self.worker = Some(w);
        let ghost before = submit_views(self.pending@);
        self.pending.push(Submit { upstream_id, miner_id: id, route, answer: None });
        proof {
            self.taken_in = Ghost(self.taken_in@.push(id));
            assert(submit_views(self.pending@) =~= before.push(
                SubmitView { upstream_id, miner_id: id, route, answer: None },
            ));
        }
        let message = Message::Submit(
            Client { id: upstream_id, method: String::from_str("eth_submitWork"), params },
        );
        actions.push(Action::ToPool { route, message });
        proof {
            assert(action_views(actions@) =~= old(self)@.submit(r, upstream, now).1);
        }
        actions
    }

    /// The position of the first share that went out along `route` under
    /// `upstream_id` and still waits for its answer.
    fn find_waiting(&self, route: Route, upstream_id: u64) -> (r: Option<usize>)
        ensures
            match r {
                Some(i) => waiting_at(self@.pending, route, upstream_id, i as int),
                None => !waits(self@.pending, route, upstream_id),
            },
    {
        let mut i: usize = 0;
        while i < self.pending.len()
            invariant
                i <= self.pending@.len(),
                forall|k: int|
                    0 <= k < i ==> !(self@.pending[k].route == route && self@.pending[k].upstream_id
                        == upstream_id && self@.pending[k].answer is None),
            decreases self.pending@.len() - i,
        {
            let here = &self.pending[i];
            if here.route == route && here.upstream_id == upstream_id && here.answer.is_none() {
                return Some(i);
            }
            i = i + 1;
        }
        None
    }

    /// Notes the answer of the share at position `i` and answers the head
    /// of the queue.
    fn settle(&mut self, i: usize, message: Message) -> (actions: Vec<Action>)
        requires
            old(self).wf(),
            !(old(self)@.phase is Closing),
            i < old(self)@.pending.len(),
            is_answer(message@),
            message.writable(),
        ensures
            final(self).wf(),
            final(self)@.inv(),
            final(self)@ == old(self)@.flush(old(self)@.noted(i as int, message@)).0,
            action_views(actions@) == old(self)@.flush(old(self)@.noted(i as int, message@)).1,
            all_writable(actions@),
    {
        let ghost s0 = self@;
        let ghost queue = s0.noted(i as int, message@);
        let ghost raw = self.pending@;
        let waiting = self.pending.len();
        proof {
            lemma_noted(s0, i as int, message@);
            lemma_flush(s0, queue);
            lemma_ready(queue);
            crate::fee::lemma_counts_fit(s0.fee);
            assert(s0.abandoned =~= Seq::<u64>::empty());
            assert(s0.taken_in.len() == s0.answered.len() + s0.pending.len());
        }
        let mut entry = self.pending.remove(i);
        entry.answer = Some(with_id_message(message, entry.miner_id));
        self.pending.insert(i, entry);
        proof {
            assert(submit_views(self.pending@) =~= queue) by {
                assert forall|k: int| 0 <= k < queue.len() implies submit_views(self.pending@)[k]
                    == queue[k] by {
                    if k != i {
                        assert(self.pending@[k] == raw[k]);
                        assert(s0.pending[k] == raw[k]@);
                    } else {
                        assert(s0.pending[k] == raw[k]@);
                    }
                }
            }
        }
        let mut actions: Vec<Action> = Vec::new();
        let mut w = match self.worker.take() {
            Some(w) => w,
            None => {
                proof {
                    assert(action_views(actions@) =~= Seq::<ActionView>::empty());
                }
                return actions;
            },
        };
        let ghost w0 = w@;
        let ghost answered0 = self.answered@;
        let mut k: usize = 0;
        proof {
            assert(queue.len() == waiting);
            assert(queue.skip(0) =~= queue);
            assert(action_views(actions@) =~= answers(queue, 0));
            assert(answered0 + miner_ids(queue.take(0)) =~= answered0);
        }
        while self.pending.len() > 0 && self.pending[0].answer.is_some()
            invariant
                k <= queue.len(),
                queue.len() <= usize::MAX,
                queue.len() == s0.pending.len(),
                submit_views(self.pending@) == queue.skip(k as int),
                forall|j: int| 0 <= j < k ==> (#[trigger] queue[j]).answer is Some,
                forall|j: int|
                    0 <= j < self.pending@.len() ==> match (#[trigger] self.pending@[j]).answer {
                        Some(m) => m.writable(),
                        None => true,
                    },
                w@ == counted(w0, queue, k as nat),
                w0.accepted + w0.rejected + queue.len() <= u64::MAX,
                w.accepted + w.rejected == w0.accepted + w0.rejected + k,
                action_views(actions@) == answers(queue, k as nat),
                all_writable(actions@),
                self.answered@ == answered0 + miner_ids(queue.take(k as int)),
                self.worker is None,
                self.id == s0.id,
                self.fee == s0.fee,
                self.mode == old(self).mode,
                self.unified_wallet@ == s0.unified_wallet,
                self.difficulty@ == s0.difficulty,
                self.phase == s0.phase,
                self.variant == s0.variant,
                self.warned == s0.warned,
                self.taken_in@ == s0.taken_in,
                self.abandoned@ == s0.abandoned,
                self@.current_job == s0.current_job,
            decreases self.pending@.len(),
        {
            let ghost rest = self.pending@;
            let ghost done = action_views(actions@);
            let entry = self.pending.remove(0);
            proof {
                assert(submit_views(rest).len() == rest.len());
                assert(queue.skip(k as int).len() == queue.len() - k);
                assert(submit_views(rest)[0] == rest[0]@);
                assert(queue.skip(k as int)[0] == queue[k as int]);
                assert(entry == rest[0]);
                assert(entry@ == queue[k as int]);
                assert(submit_views(self.pending@) =~= queue.skip(k + 1)) by {
                    assert forall|j: int| 0 <= j < self.pending@.len() implies submit_views(
                        self.pending@,
                    )[j] == queue.skip(k + 1)[j] by {
                        assert(self.pending@[j] == rest[j + 1]);
                        assert(submit_views(rest)[j + 1] == rest[j + 1]@);
                        assert(queue.skip(k as int)[j + 1] == queue[k + j + 1]);
                    }
                }
                assert forall|j: int| 0 <= j < self.pending@.len() implies match (
                #[trigger] self.pending@[j]).answer {
                    Some(m) => m.writable(),
                    None => true,
                } by {
                    assert(self.pending@[j] == rest[j + 1]);
                }
            }
            let m = match entry.answer {
                Some(m) => m,
                None => {
                    return actions;
                },
            };
            if says_accepted_message(&m) {
                w.accepted = w.accepted + 1;
            } else {
                w.rejected = w.rejected + 1;
            }
            actions.push(Action::ToMiner(m));
            proof {
                self.answered = Ghost(self.answered@.push(entry.miner_id));
                assert(action_views(actions@) =~= done.push(ActionView::ToMiner(m@)));
                assert(answers(queue, (k + 1) as nat) =~= answers(queue, k as nat).push(
                    ActionView::ToMiner(queue[k as int].answer.unwrap()),
                ));
                assert(miner_ids(queue.take(k + 1)) =~= miner_ids(queue.take(k as int)).push(
                    queue[k as int].miner_id,
                ));
                assert(answered0 + miner_ids(queue.take(k + 1)) =~= (answered0 + miner_ids(
                    queue.take(k as int),
                )).push(queue[k as int].miner_id));
            }
            k = k + 1;
        }
        proof {
            lemma_ready_split(queue, k as nat);
            let tail = queue.skip(k as int);
            assert(ready(tail) == 0) by {
                if tail.len() > 0 {
                    assert(tail[0] == submit_views(self.pending@)[0]);
                    assert(self.pending@[0]@.answer is None);
                }
            }
            assert(ready(queue) == k);
        }
        if k > 0 {
            actions.push(Action::Report(w.snapshot()));
        }
        self.worker = Some(w);
        proof {
            if k > 0 {
                assert(action_views(actions@) =~= answers(queue, k as nat).push(
                    ActionView::Report(w@),
                ));
            } else {
                assert(action_views(actions@) =~= Seq::<ActionView>::empty());
                assert(self.answered@ =~= s0.answered);
            }
        }
        actions
    }

    /// The answer of a pool to the share that went out along `route` under
    /// `upstream_id`.
    pub fn on_answer(&mut self, route: Route, upstream_id: u64, message: Message) -> (actions: Vec<
        Action,
    >)
        requires
            old(self).wf(),
            message.writable(),
        ensures
            final(self).wf(),
            final(self)@.inv(),
            final(self)@ == old(self)@.answer(route, upstream_id, message@).0,
            action_views(actions@) == old(self)@.answer(route, upstream_id, message@).1,
            all_writable(actions@),
    {
        let mut actions: Vec<Action> = Vec::new();
        if let Phase::Closing = self.phase {
            proof {
                assert(action_views(actions@) =~= Seq::<ActionView>::empty());
            }
            return actions;
        }
        let found = self.find_waiting(route, upstream_id);
        match found {
            Some(i) => {
                if is_answer_message(&message) {
                    proof {
                        let c = choose|c: int| waiting_at(self@.pending, route, upstream_id, c);
                        assert(waiting_at(self@.pending, route, upstream_id, c));
                        assert(c == i);
                    }
                    return self.settle(i, message);
                }
            },
            None => {},
        }
        actions.push(Action::Warn(Warning::UnmatchedAnswer));
        proof {
            assert(action_views(actions@) =~= seq![ActionView::Warn(Warning::UnmatchedAnswer)]);
        }
        actions
    }

    /// The share that went out along `route` under `upstream_id` will get
    /// no answer from the pool.
    pub fn on_cancel(&mut self, route: Route, upstream_id: u64, cause: Cancel) -> (actions: Vec<
        Action,
    >)
        requires
            old(self).wf(),
        ensures
            final(self).wf(),
            final(self)@.inv(),
            final(self)@ == old(self)@.cancel(route, upstream_id, cause).0,
            action_views(actions@) == old(self)@.cancel(route, upstream_id, cause).1,
            all_writable(actions@),
    {
        let mut actions: Vec<Action> = Vec::new();
        if let Phase::Closing = self.phase {
            proof {
                assert(action_views(actions@) =~= Seq::<ActionView>::empty());
            }
            return actions;
        }
        let found = self.find_waiting(route, upstream_id);
        match found {
            Some(i) => {
                proof {
                    let c = choose|c: int| waiting_at(self@.pending, route, upstream_id, c);
                    assert(waiting_at(self@.pending, route, upstream_id, c));
                    assert(c == i);
                    assert(self@.pending[i as int] == self.pending@[i as int]@);
                }
                let miner_id = self.pending[i].miner_id;
                let mut settled = self.settle(i, stale_message(miner_id));
                match cause {
                    Cancel::SubmitTimeout => {
                        let ghost tail = action_views(settled@);
                        actions.push(Action::Warn(Warning::SubmitTimeout));
                        let ghost head = actions@;
                        let ghost moved = settled@;
                        actions.append(&mut settled);
                        proof {
                            assert(actions@ =~= head + moved);
                            assert(action_views(actions@) =~= seq![
                                ActionView::Warn(Warning::SubmitTimeout),
                            ] + tail);
                            assert forall|j: int| 0 <= j < actions@.len() implies match (
                            #[trigger] actions@[j]) {
                                Action::ToMiner(m) => m.writable(),
                                Action::ToPool { route, message } => message.writable(),
                                _ => true,
                            } by {
                                if j > 0 {
                                    assert(actions@[j] == moved[j - 1]);
                                }
                            }
                        }
                        actions
                    },
                    Cancel::UpstreamReset => settled,
                }
            },
            None => {
                actions.push(Action::Warn(Warning::UnmatchedAnswer));
                proof {
                    assert(action_views(actions@) =~= seq![
                        ActionView::Warn(Warning::UnmatchedAnswer),
                    ]);
                }
                actions
            },
        }
    }
}


/// The view of a message that may be missing.
pub open spec fn message_view(message: Option<Message>) -> Option<MessageView> {
    match message {
        Some(m) => Some(m@),
        None => None,
    }
}

/// The id of a miner's request.
pub open spec fn request_id(message: Option<MessageView>) -> u64 {
    match message {
        Some(MessageView::Submit(r)) => r.id,
        _ => 0,
    }
}

impl Session {
    /// A message of the miner; `None` stands for a document that is no
    /// request the proxy knows, and `line` is the line it came in.
    pub fn on_miner_message(
        &mut self,
        mux: &mut Multiplexer,
        message: Option<Message>,
        line: &[u8],
        now: u64,
    ) -> (actions: Vec<Action>)
        requires
            old(self).wf(),
            old(mux).wf(),
            old(self)@.fee.total() < u64::MAX,
            old(mux).room(Route::Real),
            old(mux).room(Route::Dev),
        ensures
            final(self).wf(),
            final(self)@.inv(),
            final(mux).wf(),
            final(self)@ == old(self)@.miner_step(
                message_view(message),
                line@,
                old(mux).conn(pool_of(old(self)@.next_route())).next_id,
                now,
            ).0,
            action_views(actions@) == old(self)@.miner_step(
                message_view(message),
                line@,
                old(mux).conn(pool_of(old(self)@.next_route())).next_id,
                now,
            ).1,
            all_writable(actions@),
            if old(self)@.takes_in(message_view(message)) {
                reserved(
                    old(mux),
                    final(mux),
                    old(self)@.next_route(),
                    old(self)@.id,
                    request_id(message_view(message)),
                    now,
                )
            } else {
                untouched(old(mux), final(mux))
            },
    {
        match message {
            Some(Message::Login(r)) => {
                let worker = worker_from_params(&r.params);
                self.on_login(r.id, &r.params, worker, now)
            },
            Some(Message::LoginWithWorker(r)) => self.on_login(r.id, &r.params, r.worker, now),
            Some(Message::Submit(r)) => self.on_submit(mux, r.id, r.params, now),
            Some(Message::Hashrate(r)) => self.on_hashrate(r.id, &r.params),
            Some(Message::GetWork(r)) => self.on_get_work(r.id),
            Some(Message::Subscribe(r)) => self.on_subscribe(&r),
            _ => self.on_unknown(line),
        }
    }

    /// One line of the miner.
    ///
    /// A line that is no JSON ends the session. A document that is no
    /// request the proxy knows is passed on; every other is handled as the
    /// request it holds.
    pub fn on_miner_line(&mut self, mux: &mut Multiplexer, line: &[u8], now: u64) -> (actions: Vec<
        Action,
    >)
        requires
            old(self).wf(),
            old(mux).wf(),
            old(self)@.fee.total() < u64::MAX,
            old(mux).room(Route::Real),
            old(mux).room(Route::Dev),
        ensures
            final(self).wf(),
            final(self)@.inv(),
            final(mux).wf(),
            all_writable(actions@),
            match document(line@) {
                None => final(self)@ == old(self)@.close(
                    CloseReason::Protocol(ProtocolError::NotJson),
                ).0 && action_views(actions@) == old(self)@.close(
                    CloseReason::Protocol(ProtocolError::NotJson),
                ).1 && untouched(old(mux), final(mux)),
                Some(doc) => final(self)@ == old(self)@.miner_step(
                    MessageView::decode_inbound(doc),
                    line@,
                    old(mux).conn(pool_of(old(self)@.next_route())).next_id,
                    now,
                ).0 && action_views(actions@) == old(self)@.miner_step(
                    MessageView::decode_inbound(doc),
                    line@,
                    old(mux).conn(pool_of(old(self)@.next_route())).next_id,
                    now,
                ).1 && if old(self)@.takes_in(MessageView::decode_inbound(doc)) {
                    reserved(
                        old(mux),
                        final(mux),
                        old(self)@.next_route(),
                        old(self)@.id,
                        request_id(MessageView::decode_inbound(doc)),
                        now,
                    )
                } else {
                    untouched(old(mux), final(mux))
                },
            },
    {
        match parse(line) {
            Err(e) => self.on_protocol_error(e),
            Ok(doc) => {
                let message = Message::from_miner(&doc);
                self.on_miner_message(mux, message, line, now)
            },
        }
    }
}

} // verus!
