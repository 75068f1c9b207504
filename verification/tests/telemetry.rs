use mining_proxy::init;
use mining_proxy::protocol::json::parse;
use mining_proxy::state::{SendToParentStruct, Worker};
use mining_proxy::supervisor::{
    grants, ingest, ingest_line, register, upsert, Ingest, OnlineWorker,
};
use mining_proxy::telemetry::{
    report_line, TelemetryQueue, SUPERVISOR_PORT, TELEMETRY_CAPACITY, TELEMETRY_RETRY_SECS,
};

fn worker(name: &str, accepted: u64) -> Worker {
    let mut w = Worker::new(name.to_string(), "0xAAA".to_string(), 3, 100);
    w.accepted = accepted;
    w
}

#[test]
fn a_new_worker_has_counted_nothing() {
    let w = Worker::new("w1".to_string(), "0xAAA".to_string(), 3, 100);
    assert_eq!(w.worker_name, "w1");
    assert_eq!(w.login_wallet, "0xAAA");
    assert_eq!(w.accepted, 0);
    assert_eq!(w.rejected, 0);
    assert_eq!(w.submit_hashrate, 0);
    assert_eq!(w.report_hashrate, 0);
    assert_eq!(w.last_subwork_at, 100);
    assert_eq!(w.online_since, 100);
    assert_eq!(w.index, 3);
    assert_eq!(w.snapshot(), w);
}

#[test]
fn the_report_line_is_the_record_and_a_newline() {
    let mut w = worker("w1", 4);
    w.rejected = 1;
    w.submit_hashrate = 5242880;
    let line = report_line("main", &w).unwrap();
    assert_eq!(line.last(), Some(&b'\n'));
    let wanted = parse(
        br#"{"name":"main","worker":{"worker_name":"w1","login_wallet":"0xAAA","accepted":4,"rejected":1,"submit_hashrate":5242880,"report_hashrate":0,"online_since_secs":100,"index":3}}"#,
    )
    .unwrap();
    assert_eq!(parse(&line).unwrap(), wanted);
    assert_eq!(line.iter().filter(|b| **b == b'\n').count(), 1);
}

#[test]
fn a_report_reads_back_but_for_the_time_of_the_last_share() {
    let report = SendToParentStruct { name: "main".to_string(), worker: worker("w1", 4) };
    let back = SendToParentStruct::from_json(&report.to_json()).unwrap();
    assert_eq!(back.name, "main");
    assert_eq!(back.worker.last_subwork_at, 0);
    let mut wanted = report.worker.snapshot();
    wanted.last_subwork_at = 0;
    assert_eq!(back.worker, wanted);
    assert_eq!(Worker::from_json(&parse(br#"{"worker_name":"w"}"#).unwrap()), None);
    assert_eq!(SendToParentStruct::from_json(&parse(br#"{"name":"n"}"#).unwrap()), None);
}

#[test]
fn the_queue_drops_the_oldest_when_full() {
    let mut queue = TelemetryQueue::with_capacity(2);
    assert!(!queue.push(worker("a", 0)));
    assert!(!queue.push(worker("b", 0)));
    assert!(queue.push(worker("c", 0)));
    assert_eq!(queue.len(), 2);
    assert_eq!(queue.pop().unwrap().worker_name, "b");
    assert_eq!(queue.pop().unwrap().worker_name, "c");
    assert_eq!(queue.pop(), None);
    assert_eq!(queue.len(), 0);
}

#[test]
fn the_usual_queue_holds_four_thousand_and_ninety_six() {
    let mut queue = TelemetryQueue::new();
    assert_eq!(TELEMETRY_CAPACITY, 4096);
    for n in 0..4096u64 {
        assert!(!queue.push(worker("w", n)));
    }
    assert!(queue.push(worker("w", 4096)));
    assert_eq!(queue.len(), 4096);
    assert_eq!(queue.pop().unwrap().accepted, 1);
}

#[test]
fn a_report_replaces_the_worker_of_its_name_or_adds_it() {
    let mut workers = vec![worker("a", 1), worker("b", 2)];
    assert!(upsert(&mut workers, worker("a", 5)));
    assert_eq!(workers, vec![worker("a", 5), worker("b", 2)]);
    assert!(!upsert(&mut workers, worker("c", 7)));
    assert_eq!(workers, vec![worker("a", 5), worker("b", 2), worker("c", 7)]);
    let mut twice = vec![worker("a", 1), worker("a", 2)];
    assert!(upsert(&mut twice, worker("a", 9)));
    assert_eq!(twice, vec![worker("a", 9), worker("a", 9)]);
    let mut none: Vec<Worker> = Vec::new();
    assert!(!upsert(&mut none, worker("a", 1)));
    assert_eq!(none.len(), 1);
}

fn listeners() -> Vec<OnlineWorker> {
    vec![
        OnlineWorker { name: "main".to_string(), workers: Vec::new(), online: 0 },
        OnlineWorker { name: "second".to_string(), workers: vec![worker("w1", 0)], online: 1 },
    ]
}

#[test]
fn a_report_goes_to_the_listener_it_names() {
    let mut all = listeners();
    let report = SendToParentStruct { name: "second".to_string(), worker: worker("w1", 3) };
    assert_eq!(ingest(&mut all, Some(report)), Ingest::Updated);
    assert_eq!(all[1].workers, vec![worker("w1", 3)]);
    assert_eq!(all[1].online, 1);
    assert!(all[0].workers.is_empty());
    let report = SendToParentStruct { name: "main".to_string(), worker: worker("w1", 3) };
    assert_eq!(ingest(&mut all, Some(report)), Ingest::Added);
    assert_eq!(all[0].workers, vec![worker("w1", 3)]);
    let report = SendToParentStruct { name: "third".to_string(), worker: worker("w1", 3) };
    let before = all.clone();
    assert_eq!(ingest(&mut all, Some(report)), Ingest::UnknownListener);
    assert_eq!(all, before);
    assert_eq!(ingest(&mut all, None), Ingest::Ignored);
    assert_eq!(all, before);
}

#[test]
fn a_line_of_a_listener_is_taken_in() {
    let mut all = listeners();
    let line = report_line("main", &worker("w9", 2)).unwrap();
    assert_eq!(ingest_line(&mut all, &line), Ingest::Added);
    let mut wanted = worker("w9", 2);
    wanted.last_subwork_at = 0;
    assert_eq!(all[0].workers, vec![wanted]);
    assert_eq!(ingest_line(&mut all, &line), Ingest::Updated);
    assert_eq!(all[0].workers.len(), 1);
    assert_eq!(ingest_line(&mut all, b"{\"name\":\"main\"}"), Ingest::Ignored);
    assert_eq!(ingest_line(&mut all, b"junk"), Ingest::Ignored);
}

#[test]
fn only_a_valid_token_grants_the_role() {
    assert_eq!(grants("/api/server/list", Some(true)), vec!["ROLE_ADMIN".to_string()]);
    assert_eq!(grants("/api/server/list", Some(false)), Vec::<String>::new());
    assert_eq!(grants("/api/server/list", None), Vec::<String>::new());
    assert_eq!(grants("/api/user/login", Some(true)), Vec::<String>::new());
    assert_eq!(grants("/api/user/login", None), Vec::<String>::new());
    assert_eq!(grants("", Some(true)), vec!["ROLE_ADMIN".to_string()]);
}

#[test]
fn the_clock_starts_at_init() {
    let runtime = init();
    assert!(runtime.started().elapsed().as_secs() < 5);
    assert!(runtime.elapsed_secs() < 5);
    let later = init();
    assert!(later.started() >= runtime.started());
}

#[test]
fn a_listener_takes_the_place_of_the_one_of_its_name() {
    let mut all = listeners();
    let fresh = OnlineWorker { name: "second".to_string(), workers: Vec::new(), online: 0 };
    assert!(register(&mut all, fresh.clone()));
    assert_eq!(all.len(), 2);
    assert_eq!(all[1], fresh);
    assert_eq!(all[0].name, "main");
    let third = OnlineWorker { name: "third".to_string(), workers: vec![worker("w", 1)], online: 1 };
    assert!(!register(&mut all, third.clone()));
    assert_eq!(all.len(), 3);
    assert_eq!(all[2], third);
    let mut none: Vec<OnlineWorker> = Vec::new();
    assert!(!register(&mut none, fresh.clone()));
    assert_eq!(none, vec![fresh]);
}

#[test]
fn a_line_changes_only_the_listener_it_names() {
    let mut all = listeners();
    all[1].workers.push(worker("w2", 5));
    let before = all.clone();
    let line = report_line("second", &worker("w1", 9)).unwrap();
    assert_eq!(ingest_line(&mut all, &line), Ingest::Updated);
    assert_eq!(all[0], before[0]);
    assert_eq!(all[1].name, "second");
    assert_eq!(all[1].online, 1);
    assert_eq!(all[1].workers.len(), 2);
    assert_eq!(all[1].workers[0].accepted, 9);
    assert_eq!(all[1].workers[1], before[1].workers[1]);
    let unknown = report_line("nobody", &worker("w1", 9)).unwrap();
    let before = all.clone();
    assert_eq!(ingest_line(&mut all, &unknown), Ingest::UnknownListener);
    assert_eq!(all, before);
    assert_eq!(ingest_line(&mut all, b"{"), Ingest::Ignored);
    assert_eq!(all, before);
}

#[test]
fn the_supervisor_is_dialled_again_after_two_minutes() {
    assert_eq!(TELEMETRY_RETRY_SECS, 120);
    assert_eq!(SUPERVISOR_PORT, 65500);
}
