//! The supervisor's side of telemetry: the workers it knows of each
//! listener, kept up to date from the reports the listeners send, and who
//! may see them.

use crate::protocol::json::document;
use crate::protocol::json::parse;
use crate::protocol::message::text_is;
use crate::state::ReportView;
use crate::state::SendToParentStruct;
use crate::state::Worker;
use crate::state::WorkerView;
use crate::telemetry::worker_views;
use vstd::prelude::*;

verus! {

/// The workers after a report: every worker of the report's name is
/// replaced by the report, and a worker that is not known yet is added at
/// the end.
pub open spec fn upserted(workers: Seq<WorkerView>, report: WorkerView) -> Seq<WorkerView> {
    let replaced = Seq::new(
        workers.len(),
        |i: int|
            if workers[i].worker_name == report.worker_name {
                report
            } else {
                workers[i]
            },
    );
    if known(workers, report.worker_name) {
        replaced
    } else {
        replaced.push(report)
    }
}

/// Whether a worker of this name is among `workers`.
pub open spec fn known(workers: Seq<WorkerView>, name: Seq<char>) -> bool {
    exists|i: int| 0 <= i < workers.len() && (#[trigger] workers[i]).worker_name == name
}

/// After a report its worker is known, and no other worker has come or
/// gone.
pub proof fn lemma_upserted(workers: Seq<WorkerView>, report: WorkerView)
    ensures
        known(upserted(workers, report), report.worker_name),
        forall|name: Seq<char>|
            name != report.worker_name ==> known(upserted(workers, report), name) == known(
                workers,
                name,
            ),
        upserted(workers, report).len() == workers.len() + if known(
            workers,
            report.worker_name,
        ) {
            0int
        } else {
            1int
        },
{
    let after = upserted(workers, report);
    if known(workers, report.worker_name) {
        let i = choose|i: int|
            0 <= i < workers.len() && (#[trigger] workers[i]).worker_name == report.worker_name;
        assert(after[i].worker_name == report.worker_name);
    } else {
        assert(after[workers.len() as int].worker_name == report.worker_name);
    }
    assert forall|name: Seq<char>| name != report.worker_name implies known(after, name) == known(
        workers,
        name,
    ) by {
        if known(workers, name) {
            let i = choose|i: int| 0 <= i < workers.len() && (#[trigger] workers[i]).worker_name == name;
            assert(after[i].worker_name == name);
        }
        if known(after, name) {
            let i = choose|i: int| 0 <= i < after.len() && (#[trigger] after[i]).worker_name == name;
            assert(i < workers.len());
            assert(workers[i].worker_name == name);
        }
    }
}

/// No two workers have the same name.
pub open spec fn distinct_workers(workers: Seq<WorkerView>) -> bool {
    forall|i: int, j: int|
        0 <= i < j < workers.len() ==> (#[trigger] workers[i]).worker_name != (
        #[trigger] workers[j]).worker_name
}

/// A worker's name stays unique on its listener: where no two workers had
/// the same name before a report, no two have it after.
pub proof fn lemma_upserted_distinct(workers: Seq<WorkerView>, report: WorkerView)
    requires
        distinct_workers(workers),
    ensures
        distinct_workers(upserted(workers, report)),
{
    let after = upserted(workers, report);
    assert forall|i: int, j: int| 0 <= i < j < after.len() implies (#[trigger] after[i]).worker_name
        != (#[trigger] after[j]).worker_name by {
        if j < workers.len() {
            assert(workers[i].worker_name != workers[j].worker_name);
        } else {
            assert(!known(workers, report.worker_name));
            assert(workers[i].worker_name != report.worker_name);
        }
    }
}

/// Takes a report into the list of a listener's workers.
pub fn upsert(workers: &mut Vec<Worker>, report: Worker) -> (updated: bool)
    ensures
        worker_views(final(workers)@) == upserted(worker_views(old(workers)@), report@),
        updated == known(worker_views(old(workers)@), report@.worker_name),
        distinct_workers(worker_views(old(workers)@)) ==> distinct_workers(
            worker_views(final(workers)@),
        ),
{
    proof {
        if distinct_workers(worker_views(workers@)) {
            lemma_upserted_distinct(worker_views(workers@), report@);
        }
    }
    let ghost before = worker_views(workers@);
    let mut updated = false;
    let mut i: usize = 0;
    while i < workers.len()
        invariant
            i <= workers@.len(),
            workers@.len() == before.len(),
            updated == known(before.take(i as int), report@.worker_name),
            forall|k: int|
                0 <= k < i ==> (#[trigger] workers@[k])@ == if before[k].worker_name
                    == report@.worker_name {
                    report@
                } else {
                    before[k]
                },
            forall|k: int| i <= k < workers@.len() ==> (#[trigger] workers@[k])@ == before[k],
        decreases workers@.len() - i,
    {
        let ghost seen = before.take(i as int);
        let ghost next = before.take(i + 1);
        if workers[i].worker_name == report.worker_name {
            workers[i] = report.snapshot();
            updated = true;
            proof {
                assert(next[i as int].worker_name == report@.worker_name);
            }
        } else {
            proof {
                if known(next, report@.worker_name) {
                    let k = choose|k: int|
                        0 <= k < next.len() && (#[trigger] next[k]).worker_name
                            == report@.worker_name;
                    assert(k < i);
                    assert(seen[k].worker_name == report@.worker_name);
                }
                if known(seen, report@.worker_name) {
                    let k = choose|k: int|
                        0 <= k < seen.len() && (#[trigger] seen[k]).worker_name
                            == report@.worker_name;
                    assert(next[k].worker_name == report@.worker_name);
                }
            }
        }
        i = i + 1;
    }
    proof {
        assert(before.take(i as int) =~= before);
    }
    if !updated {
        workers.push(report);
    }
    proof {
        assert(worker_views(workers@) =~= upserted(before, report@));
    }
    updated
}

/// What the supervisor knows of one listener.
///
/// The supervisor keeps its listeners in a list in which no name occurs
/// twice: [`register`] puts a listener in the place of the one that has its
/// name, and a report changes no name.
#[derive(Debug, Clone, PartialEq)]
pub struct OnlineWorker {
    /// The listener's name.
    pub name: String,
    /// Its workers, in the order they were first reported.
    pub workers: Vec<Worker>,
    /// The number of its workers that are online.
    pub online: u64,
}

/// What became of a line a listener sent.
#[derive(Debug, Clone, Copy, PartialEq, Eq, Structural)]
pub enum Ingest {
    /// A known worker was brought up to date.
    Updated,
    /// A new worker was added.
    Added,
    /// The report names a listener the supervisor does not run.
    UnknownListener,
    /// The line is no report.
    Ignored,
}

/// The position of the first listener called `name`.
pub open spec fn listener_at(listeners: Seq<OnlineWorker>, name: Seq<char>, i: int) -> bool {
    &&& 0 <= i < listeners.len()
    &&& listeners[i].name@ == name
    &&& forall|k: int| 0 <= k < i ==> listeners[k].name@ != name
}

/// Whether a listener called `name` is among `listeners`.
pub open spec fn runs(listeners: Seq<OnlineWorker>, name: Seq<char>) -> bool {
    exists|i: int| listener_at(listeners, name, i)
}

/// No two listeners have the same name.
pub open spec fn distinct_listeners(listeners: Seq<OnlineWorker>) -> bool {
    forall|i: int, j: int|
        0 <= i < j < listeners.len() ==> (#[trigger] listeners[i]).name@ != (
        #[trigger] listeners[j]).name@
}

/// Where no name occurs twice, the first listener of a name is the only
/// one.
pub proof fn lemma_only_listener(listeners: Seq<OnlineWorker>, name: Seq<char>, k: int)
    requires
        distinct_listeners(listeners),
        0 <= k < listeners.len(),
    ensures
        listener_at(listeners, name, k) == (listeners[k].name@ == name),
{
    if listeners[k].name@ == name {
        assert forall|i: int| 0 <= i < k implies listeners[i].name@ != name by {
            assert(listeners[i].name@ != listeners[k].name@);
        }
    }
}

/// Puts a listener among the listeners the supervisor runs: in the place of
/// the first that has its name, or at the end if none has it. The result
/// says whether one was replaced.
pub fn register(listeners: &mut Vec<OnlineWorker>, listener: OnlineWorker) -> (replaced: bool)
    ensures
        replaced == runs(old(listeners)@, listener.name@),
        replaced ==> final(listeners)@.len() == old(listeners)@.len(),
        !replaced ==> final(listeners)@ == old(listeners)@.push(listener),
        forall|k: int|
            0 <= k < old(listeners)@.len() ==> (#[trigger] final(listeners)@[k]) == if listener_at(
                old(listeners)@,
                listener.name@,
                k,
            ) {
                listener
            } else {
                old(listeners)@[k]
            },
        distinct_listeners(old(listeners)@) ==> distinct_listeners(final(listeners)@),
{
    let ghost before = listeners@;
    let mut i: usize = 0;
    while i < listeners.len()
        invariant
            i <= listeners@.len(),
            listeners@ == before,
            before == old(listeners)@,
            forall|k: int| 0 <= k < i ==> before[k].name@ != listener.name@,
        decreases listeners@.len() - i,
    {
        if listeners[i].name == listener.name {
            proof {
                assert(listener_at(before, listener.name@, i as int));
            }
            listeners[i] = listener;
            proof {
                assert forall|k: int| 0 <= k < before.len() implies (#[trigger] listeners@[k])
                    == if listener_at(before, listener.name@, k) {
                    listener
                } else {
                    before[k]
                } by {
                    if k != i && listener_at(before, listener.name@, k) {
                        if k < i {
                            assert(before[k].name@ != listener.name@);
                        } else {
                            assert(before[i as int].name@ != listener.name@);
                        }
                    }
                }
                if distinct_listeners(before) {
                    assert forall|a: int, b: int| 0 <= a < b < listeners@.len() implies (
                    #[trigger] listeners@[a]).name@ != (#[trigger] listeners@[b]).name@ by {
                        assert(before[a].name@ != before[b].name@);
                    }
                }
            }
            return true;
        }
        i = i + 1;
    }
    proof {
        if runs(before, listener.name@) {
            let c = choose|c: int| listener_at(before, listener.name@, c);
            assert(before[c].name@ != listener.name@);
        }
        assert forall|k: int| 0 <= k < before.len() implies !listener_at(
            before,
            listener.name@,
            k,
        ) by {
            assert(before[k].name@ != listener.name@);
        }
    }
    listeners.push(listener);
    proof {
        if distinct_listeners(before) {
            assert forall|a: int, b: int| 0 <= a < b < listeners@.len() implies (
            #[trigger] listeners@[a]).name@ != (#[trigger] listeners@[b]).name@ by {
                if b < before.len() {
                    assert(before[a].name@ != before[b].name@);
                } else {
                    assert(before[a].name@ != listener.name@);
                }
            }
        }
    }
    false
}

/// What a report does to the supervisor's listeners, and what is said of
/// it; `report` is `None` for a line that is no report.
pub open spec fn ingested(listeners: Seq<OnlineWorker>, report: Option<ReportView>) -> Ingest {
    match report {
        None => Ingest::Ignored,
        Some(r) => if !runs(listeners, r.name) {
            Ingest::UnknownListener
        } else {
            let i = choose|i: int| listener_at(listeners, r.name, i);
            if known(worker_views(listeners[i].workers@), r.worker.worker_name) {
                Ingest::Updated
            } else {
                Ingest::Added
            }
        },
    }
}

/// Takes a report into the listeners it belongs to: the first listener of
/// the report's name gets the worker, and no other listener changes.
pub fn ingest(listeners: &mut Vec<OnlineWorker>, report: Option<SendToParentStruct>) -> (r: Ingest)
    ensures
        r == ingested(
            old(listeners)@,
            match report {
                Some(s) => Some(s@),
                None => None,
            },
        ),
        final(listeners)@.len() == old(listeners)@.len(),
        forall|k: int|
            0 <= k < old(listeners)@.len() ==> (#[trigger] final(listeners)@[k]).name@ == old(listeners)@[k].name@ && final(listeners)@[k].online == old(listeners)@[k].online,
        forall|k: int|
            0 <= k < old(listeners)@.len() ==> worker_views(
                (#[trigger] final(listeners)@[k]).workers@,
            ) == if report is Some && listener_at(old(listeners)@, report.unwrap()@.name, k) {
                upserted(worker_views(old(listeners)@[k].workers@), report.unwrap()@.worker)
            } else {
                worker_views(old(listeners)@[k].workers@)
            },
        distinct_listeners(old(listeners)@) ==> distinct_listeners(final(listeners)@),
{
    let given = match report {
        Some(r) => r,
        None => return Ingest::Ignored,
    };
    let ghost told = given@;
    let ghost before = listeners@;
    let mut i: usize = 0;
    while i < listeners.len()
        invariant
            i <= listeners@.len(),
            listeners@ == before,
            before == old(listeners)@,
            told == given@,
            report == Some(given),
            forall|k: int| 0 <= k < i ==> before[k].name@ != told.name,
        decreases listeners@.len() - i,
    {
        if listeners[i].name == given.name {
            proof {
                assert(listener_at(before, told.name, i as int));
                let c = choose|c: int| listener_at(before, told.name, c);
                assert(listener_at(before, told.name, c));
                assert(c == i);
            }
            let mut entry = listeners.remove(i);
            let ghost had = worker_views(entry.workers@);
            let updated = upsert(&mut entry.workers, given.worker);
            let ghost has = worker_views(entry.workers@);
            listeners.insert(i, entry);
            proof {
                assert forall|k: int| 0 <= k < before.len() implies (#[trigger] listeners@[k]).name@
                    == before[k].name@ && listeners@[k].online == before[k].online by {}
                assert forall|k: int| 0 <= k < before.len() implies worker_views(
                    (#[trigger] listeners@[k]).workers@,
                ) == if listener_at(before, told.name, k) {
                    upserted(worker_views(before[k].workers@), told.worker)
                } else {
                    worker_views(before[k].workers@)
                } by {
                    if k == i {
                        assert(listeners@[k].workers@ == entry.workers@);
                        assert(had == worker_views(before[k].workers@));
                        assert(has == upserted(had, told.worker));
                    } else {
                        assert(listeners@[k] == before[k]);
                        if listener_at(before, told.name, k) {
                            if k < i {
                                assert(before[k].name@ != told.name);
                            } else {
                                assert(before[i as int].name@ != told.name);
                            }
                        }
                    }
                }
            }
            return if updated {
                Ingest::Updated
            } else {
                Ingest::Added
            };
        }
        i = i + 1;
    }
    proof {
        if runs(before, told.name) {
            let c = choose|c: int| listener_at(before, told.name, c);
            assert(before[c].name@ != told.name);
        }
        assert forall|k: int| 0 <= k < before.len() implies !listener_at(before, told.name, k) by {
            assert(before[k].name@ != told.name);
        }
    }
    Ingest::UnknownListener
}

/// The report that a line holds, if it is a JSON text that holds one.
pub open spec fn report_in(line: Seq<u8>) -> Option<ReportView> {
    match document(line) {
        Some(doc) => ReportView::decode(doc),
        None => None,
    }
}

/// Takes one line of a listener: the report it holds, if it holds one, goes
/// to the listener it names.
///
/// In the first listener of the report's name, every worker of the report's
/// worker name is replaced by the report, or the report is added at the end
/// if there was none. Every other listener stays as it was, and so does
/// every listener where the line holds no report or names a listener that
/// is not run here. No listener comes or goes or changes its name.
pub fn ingest_line(listeners: &mut Vec<OnlineWorker>, line: &[u8]) -> (r: Ingest)
    ensures
        r == ingested(old(listeners)@, report_in(line@)),
        final(listeners)@.len() == old(listeners)@.len(),
        forall|k: int|
            0 <= k < old(listeners)@.len() ==> (#[trigger] final(listeners)@[k]).name@
                == old(listeners)@[k].name@ && final(listeners)@[k].online
                == old(listeners)@[k].online,
        forall|k: int|
            0 <= k < old(listeners)@.len() ==> worker_views(
                (#[trigger] final(listeners)@[k]).workers@,
            ) == if report_in(line@) is Some && listener_at(
                old(listeners)@,
                report_in(line@).unwrap().name,
                k,
            ) {
                upserted(
                    worker_views(old(listeners)@[k].workers@),
                    report_in(line@).unwrap().worker,
                )
            } else {
                worker_views(old(listeners)@[k].workers@)
            },
        distinct_listeners(old(listeners)@) ==> distinct_listeners(final(listeners)@),
{
    let report = match parse(line) {
        Ok(doc) => SendToParentStruct::from_json(&doc),
        Err(_) => None,
    };
    ingest(listeners, report)
}

/// The one role there is.
pub open spec fn role_admin() -> Seq<char> {
    "ROLE_ADMIN"@
}

/// The path on which a user logs in; it is open to everybody.
pub open spec fn login_path() -> Seq<char> {
    "/api/user/login"@
}

/// The roles of a request: the administrator's for a request with a valid
/// token, and none for the login path, for a request without a token and
/// for one whose token is not valid.
pub open spec fn granted(path: Seq<char>, token: Option<bool>) -> Seq<Seq<char>> {
    if path != login_path() && token == Some(true) {
        seq![role_admin()]
    } else {
        Seq::empty()
    }
}

/// The roles of a request to `path`. `token` is `None` where the request
/// carries no token, and else says whether the token it carries is valid.
pub fn grants(path: &str, token: Option<bool>) -> (roles: Vec<String>)
    ensures
        roles.deep_view() == granted(path@, token),
{
    let mut roles: Vec<String> = Vec::new();
    let asked = String::from_str(path);
    if !text_is(&asked, "/api/user/login") {
        if let Some(true) = token {
            roles.push(String::from_str("ROLE_ADMIN"));
        }
    }
    proof {
        assert(roles.deep_view() =~= granted(path@, token));
    }
    roles
}

} // verus!
