//! What the proxy knows of one worker, and the record in which a listener
//! reports it.

use crate::protocol::codec::object;
use crate::protocol::codec::read_text;
use crate::protocol::codec::read_u64;
use crate::protocol::codec::text_at;
use crate::protocol::codec::u64_at;
use crate::protocol::json::lemma_object_member;
use crate::protocol::json::names;
use crate::protocol::json::object_of;
use crate::protocol::json::values;
use crate::protocol::json::Json;
use crate::protocol::json::JsonView;
use vstd::prelude::*;

verus! {

/// One logged-in worker.
#[derive(Default, Debug, Clone, PartialEq)]
pub struct Worker {
    /// The effective worker name. The supervisor keeps one worker of each
    /// name per listener: a report takes the place of the worker that has
    /// its name.
    pub worker_name: String,
    /// The wallet the worker logged in with.
    pub login_wallet: String,
    /// Shares that were answered with `true`.
    pub accepted: u64,
    /// Shares that were answered otherwise.
    pub rejected: u64,
    /// The hashrate the worker last reported.
    pub submit_hashrate: u64,
    /// The hashrate last reported upstream on the worker's behalf.
    pub report_hashrate: u64,
    /// When the worker last submitted a share, in seconds of listener time.
    pub last_subwork_at: u64,
    /// When the worker logged in, in seconds of listener time.
    pub online_since: u64,
    /// The worker's number on its listener.
    pub index: u64,
}

/// The view of [`Worker`].
pub struct WorkerView {
    pub worker_name: Seq<char>,
    pub login_wallet: Seq<char>,
    pub accepted: u64,
    pub rejected: u64,
    pub submit_hashrate: u64,
    pub report_hashrate: u64,
    pub last_subwork_at: u64,
    pub online_since: u64,
    pub index: u64,
}

impl View for Worker {
    type V = WorkerView;

    open spec fn view(&self) -> WorkerView {
        WorkerView {
            worker_name: self.worker_name@,
            login_wallet: self.login_wallet@,
            accepted: self.accepted,
            rejected: self.rejected,
            submit_hashrate: self.submit_hashrate,
            report_hashrate: self.report_hashrate,
            last_subwork_at: self.last_subwork_at,
            online_since: self.online_since,
            index: self.index,
        }
    }
}

/// The member names of a worker record, by length and first letter.
pub proof fn lemma_worker_keys()
    ensures
        "name"@.len() == 4,
        "index"@.len() == 5,
        "worker"@.len() == 6,
        "accepted"@.len() == 8 && "accepted"@[0] == 'a',
        "rejected"@.len() == 8 && "rejected"@[0] == 'r',
        "worker_name"@.len() == 11,
        "login_wallet"@.len() == 12,
        "submit_hashrate"@.len() == 15 && "submit_hashrate"@[0] == 's',
        "report_hashrate"@.len() == 15 && "report_hashrate"@[0] == 'r',
        "online_since_secs"@.len() == 17,
{
    reveal_strlit("name");
    reveal_strlit("index");
    reveal_strlit("worker");
    reveal_strlit("accepted");
    reveal_strlit("rejected");
    reveal_strlit("worker_name");
    reveal_strlit("login_wallet");
    reveal_strlit("submit_hashrate");
    reveal_strlit("report_hashrate");
    reveal_strlit("online_since_secs");
}

impl WorkerView {
    /// A worker that has just logged in.
    pub open spec fn fresh(
        worker_name: Seq<char>,
        login_wallet: Seq<char>,
        index: u64,
        now: u64,
    ) -> WorkerView {
        WorkerView {
            worker_name,
            login_wallet,
            accepted: 0,
            rejected: 0,
            submit_hashrate: 0,
            report_hashrate: 0,
            last_subwork_at: now,
            online_since: now,
            index,
        }
    }

    /// The member names of the record, in the order they are written.
    pub open spec fn keys() -> Seq<Seq<char>> {
        seq![
            "worker_name"@,
            "login_wallet"@,
            "accepted"@,
            "rejected"@,
            "submit_hashrate"@,
            "report_hashrate"@,
            "online_since_secs"@,
            "index"@,
        ]
    }

    /// The worker as the record a listener reports. The time of the last
    /// share is not part of it.
    pub open spec fn encode(self) -> JsonView {
        object_of(
            WorkerView::keys(),
            seq![
                JsonView::Text(self.worker_name),
                JsonView::Text(self.login_wallet),
                JsonView::Unsigned(self.accepted),
                JsonView::Unsigned(self.rejected),
                JsonView::Unsigned(self.submit_hashrate),
                JsonView::Unsigned(self.report_hashrate),
                JsonView::Unsigned(self.online_since),
                JsonView::Unsigned(self.index),
            ],
        )
    }

    /// The worker that a record holds, if it has all eight members.
    pub open spec fn decode(doc: JsonView) -> Option<WorkerView> {
        match (
            text_at(doc, "worker_name"@),
            text_at(doc, "login_wallet"@),
            u64_at(doc, "accepted"@),
            u64_at(doc, "rejected"@),
            u64_at(doc, "submit_hashrate"@),
            u64_at(doc, "report_hashrate"@),
            u64_at(doc, "online_since_secs"@),
            u64_at(doc, "index"@),
        ) {
            (
                Some(worker_name),
                Some(login_wallet),
                Some(accepted),
                Some(rejected),
                Some(submit_hashrate),
                Some(report_hashrate),
                Some(online_since),
                Some(index),
            ) => Some(
                WorkerView {
                    worker_name,
                    login_wallet,
                    accepted,
                    rejected,
                    submit_hashrate,
                    report_hashrate,
                    last_subwork_at: 0,
                    online_since,
                    index,
                },
            ),
            _ => None,
        }
    }

    /// Reading a written record gives the worker, but for the time of its
    /// last share.
    pub proof fn lemma_round_trip(self)
        ensures
            WorkerView::decode(self.encode()) == Some(WorkerView { last_subwork_at: 0, ..self }),
    {
        lemma_worker_keys();
        let ns = WorkerView::keys();
        let vs = seq![
            JsonView::Text(self.worker_name),
            JsonView::Text(self.login_wallet),
            JsonView::Unsigned(self.accepted),
            JsonView::Unsigned(self.rejected),
            JsonView::Unsigned(self.submit_hashrate),
            JsonView::Unsigned(self.report_hashrate),
            JsonView::Unsigned(self.online_since),
            JsonView::Unsigned(self.index),
        ];
        lemma_object_member(ns, vs, "worker_name"@, 0);
        lemma_object_member(ns, vs, "login_wallet"@, 1);
        lemma_object_member(ns, vs, "accepted"@, 2);
        lemma_object_member(ns, vs, "rejected"@, 3);
        lemma_object_member(ns, vs, "submit_hashrate"@, 4);
        lemma_object_member(ns, vs, "report_hashrate"@, 5);
        lemma_object_member(ns, vs, "online_since_secs"@, 6);
        lemma_object_member(ns, vs, "index"@, 7);
    }
}

impl Worker {
    /// A worker that has just logged in.
    pub fn new(worker_name: String, login_wallet: String, index: u64, now: u64) -> (w: Worker)
        ensures
            w@ == WorkerView::fresh(worker_name@, login_wallet@, index, now),
    {
        Worker {
            worker_name,
            login_wallet,
            accepted: 0,
            rejected: 0,
            submit_hashrate: 0,
            report_hashrate: 0,
            last_subwork_at: now,
            online_since: now,
            index,
        }
    }

    /// A copy to hand to telemetry.
    pub fn snapshot(&self) -> (w: Worker)
        ensures
            w@ == self@,
    {
        Worker {
            worker_name: self.worker_name.clone(),
            login_wallet: self.login_wallet.clone(),
            accepted: self.accepted,
            rejected: self.rejected,
            submit_hashrate: self.submit_hashrate,
            report_hashrate: self.report_hashrate,
            last_subwork_at: self.last_subwork_at,
            online_since: self.online_since,
            index: self.index,
        }
    }

    /// Writes the worker as the record a listener reports.
    pub fn to_json(&self) -> (j: Json)
        ensures
            j@ == self@.encode(),
            j.wf(),
    {
        let mut fields: Vec<(String, Json)> = Vec::new();
        fields.push((String::from_str("worker_name"), Json::Text(self.worker_name.clone())));
        fields.push((String::from_str("login_wallet"), Json::Text(self.login_wallet.clone())));
        fields.push((String::from_str("accepted"), Json::Unsigned(self.accepted)));
        fields.push((String::from_str("rejected"), Json::Unsigned(self.rejected)));
        fields.push((String::from_str("submit_hashrate"), Json::Unsigned(self.submit_hashrate)));
        fields.push((String::from_str("report_hashrate"), Json::Unsigned(self.report_hashrate)));
        fields.push((String::from_str("online_since_secs"), Json::Unsigned(self.online_since)));
        fields.push((String::from_str("index"), Json::Unsigned(self.index)));
        proof {
            lemma_worker_keys();
            assert(names(fields@) =~= WorkerView::keys());
            assert(values(fields@) =~= seq![
                JsonView::Text(self.worker_name@),
                JsonView::Text(self.login_wallet@),
                JsonView::Unsigned(self.accepted),
                JsonView::Unsigned(self.rejected),
                JsonView::Unsigned(self.submit_hashrate),
                JsonView::Unsigned(self.report_hashrate),
                JsonView::Unsigned(self.online_since),
                JsonView::Unsigned(self.index),
            ]);
        }
        object(fields)
    }

    /// Reads a worker from a record.
    pub fn from_json(doc: &Json) -> (r: Option<Worker>)
        ensures
            match r {
                Some(w) => WorkerView::decode(doc@) == Some(w@),
                None => WorkerView::decode(doc@) is None,
            },
    {
        let worker_name = match read_text(doc, "worker_name") {
            Some(v) => v,
            None => return None,
        };
        let login_wallet = match read_text(doc, "login_wallet") {
            Some(v) => v,
            None => return None,
        };
        let accepted = match read_u64(doc, "accepted") {
            Some(v) => v,
            None => return None,
        };
        let rejected = match read_u64(doc, "rejected") {
            Some(v) => v,
            None => return None,
        };
        let submit_hashrate = match read_u64(doc, "submit_hashrate") {
            Some(v) => v,
            None => return None,
        };
        let report_hashrate = match read_u64(doc, "report_hashrate") {
            Some(v) => v,
            None => return None,
        };
        let online_since = match read_u64(doc, "online_since_secs") {
            Some(v) => v,
            None => return None,
        };
        let index = match read_u64(doc, "index") {
            Some(v) => v,
            None => return None,
        };
        Some(
            Worker {
                worker_name,
                login_wallet,
                accepted,
                rejected,
                submit_hashrate,
                report_hashrate,
                last_subwork_at: 0,
                online_since,
                index,
            },
        )
    }
}

/// The view of [`SendToParentStruct`].
pub struct ReportView {
    pub name: Seq<char>,
    pub worker: WorkerView,
}

/// What a listener sends to its supervisor: its own name and one worker.
#[derive(Debug, Clone, PartialEq)]
pub struct SendToParentStruct {
    pub name: String,
    pub worker: Worker,
}

impl View for SendToParentStruct {
    type V = ReportView;

    open spec fn view(&self) -> ReportView {
        ReportView { name: self.name@, worker: self.worker@ }
    }
}

impl ReportView {
    /// The report as a document.
    pub open spec fn encode(self) -> JsonView {
        object_of(
            seq!["name"@, "worker"@],
            seq![JsonView::Text(self.name), self.worker.encode()],
        )
    }

    /// The report that a document holds, if it has both members.
    pub open spec fn decode(doc: JsonView) -> Option<ReportView> {
        match (text_at(doc, "name"@), doc.member("worker"@)) {
            (Some(name), Some(w)) => match WorkerView::decode(w) {
                Some(worker) => Some(ReportView { name, worker }),
                None => None,
            },
            _ => None,
        }
    }

    /// Reading a written report gives the report, but for the time of the
    /// worker's last share.
    pub proof fn lemma_round_trip(self)
        ensures
            ReportView::decode(self.encode()) == Some(
                ReportView {
                    name: self.name,
                    worker: WorkerView { last_subwork_at: 0, ..self.worker },
                },
            ),
    {
        lemma_worker_keys();
        let ns = seq!["name"@, "worker"@];
        let vs = seq![JsonView::Text(self.name), self.worker.encode()];
        lemma_object_member(ns, vs, "name"@, 0);
        lemma_object_member(ns, vs, "worker"@, 1);
        self.worker.lemma_round_trip();
    }
}

impl SendToParentStruct {
    /// Writes the report as a document.
    pub fn to_json(&self) -> (j: Json)
        ensures
            j@ == self@.encode(),
            j.wf(),
    {
        let mut fields: Vec<(String, Json)> = Vec::new();
        fields.push((String::from_str("name"), Json::Text(self.name.clone())));
        fields.push((String::from_str("worker"), self.worker.to_json()));
        proof {
            lemma_worker_keys();
            assert(names(fields@) =~= seq!["name"@, "worker"@]);
            assert(values(fields@) =~= seq![
                JsonView::Text(self.name@),
                self.worker@.encode(),
            ]);
        }
        object(fields)
    }

    /// Reads a report from a document.
    pub fn from_json(doc: &Json) -> (r: Option<SendToParentStruct>)
        ensures
            match r {
                Some(s) => ReportView::decode(doc@) == Some(s@),
                None => ReportView::decode(doc@) is None,
            },
    {
        let name = match read_text(doc, "name") {
            Some(v) => v,
            None => return None,
        };
        let worker = match doc.member("worker") {
            Some(w) => match Worker::from_json(w) {
                Some(worker) => worker,
                None => return None,
            },
            None => return None,
        };
        Some(SendToParentStruct { name, worker })
    }
}

} // verus!
