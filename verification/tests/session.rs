use mining_proxy::fee::Route;
use mining_proxy::protocol::error::ProtocolError;
use mining_proxy::protocol::json::parse;
use mining_proxy::protocol::message::{write_line, Acknowledgement, Job, Message};
use mining_proxy::protocol::rpc::eth::{
    Client, EthError, Server, ServerError, ServerId1, ServerSideJob,
};
use mining_proxy::session::machine::login_message;
use mining_proxy::session::{
    Action, Cancel, CloseReason, Phase, ProtocolVariant, Session, Warning,
};
use mining_proxy::upstream::{Multiplexer, Pool, PoolEvent, Step};
use mining_proxy::util::config::ShareMode;

fn texts(items: &[&str]) -> Vec<String> {
    items.iter().map(|s| s.to_string()).collect()
}

fn session(mode: ShareMode, rate: u64) -> (Session, Multiplexer) {
    let s = Session::new(7, mode, rate, "0xUNIFIED".to_string(), "0xffff".to_string());
    (s, Multiplexer::new(1, 1))
}

fn login(s: &mut Session, mux: &mut Multiplexer) {
    let line = br#"{"id":1,"method":"eth_submitLogin","params":["0xAAA","x"],"worker":"w1"}"#;
    let actions = s.on_miner_line(mux, line, 10);
    assert_eq!(actions.len(), 3);
    assert_eq!(s.phase(), Phase::LoggedIn);
}

fn submit(s: &mut Session, mux: &mut Multiplexer, miner_id: u64) -> (Route, u64) {
    let line = format!(
        "{{\"id\":{},\"method\":\"eth_submitWork\",\"params\":[\"0xNONCE\",\"0xHEADER\",\"0xMIX\"]}}",
        miner_id
    );
    let mut actions = s.on_miner_line(mux, line.as_bytes(), 20);
    assert_eq!(actions.len(), 1);
    match actions.remove(0) {
        Action::ToPool { route, message: Message::Submit(c) } => {
            assert_eq!(c.method, "eth_submitWork");
            assert_eq!(c.params, texts(&["0xNONCE", "0xHEADER", "0xMIX"]));
            (route, c.id)
        }
        other => panic!("unexpected action {:?}", other),
    }
}

fn pool_answers(mux: &mut Multiplexer, pool: Pool, line: &str) -> (Route, u64, Message) {
    match mux.on_pool_line(pool, line.as_bytes()) {
        Ok(PoolEvent::Answer { entry, message }) => {
            assert_eq!(entry.session, 7);
            (entry.route, entry.upstream_id, message)
        }
        other => panic!("unexpected event {:?}", other),
    }
}

fn ack(id: u64, result: bool) -> Action {
    Action::ToMiner(Message::Ack(Acknowledgement::Plain(ServerId1 { id, result })))
}

fn stale(id: u64) -> Action {
    Action::ToMiner(Message::ErrObj(ServerError {
        id,
        result: false,
        error: EthError { code: 21, message: "stale".to_string() },
    }))
}

#[test]
fn pure_proxy_single_share_accepted() {
    let (mut s, mut mux) = session(ShareMode::PureProxy, 0);
    let line = br#"{"id":1,"method":"eth_submitLogin","params":["0xAAA","x"],"worker":"w1"}"#;
    let actions = s.on_miner_line(&mut mux, line, 10);
    assert_eq!(actions.len(), 3);
    assert_eq!(actions[0], ack(1, true));
    assert_eq!(
        actions[1],
        Action::Login { route: Route::Real, wallet: "0xAAA".to_string(), worker: "w1".to_string() }
    );
    match &actions[2] {
        Action::Report(w) => {
            assert_eq!(w.worker_name, "w1");
            assert_eq!(w.login_wallet, "0xAAA");
            assert_eq!(w.online_since, 10);
            assert_eq!(w.index, 7);
        }
        other => panic!("unexpected action {:?}", other),
    }
    let (route, u) = submit(&mut s, &mut mux, 2);
    assert_eq!(route, Route::Real);
    assert_eq!(s.waiting(), 1);
    let reply = format!("{{\"id\":{},\"result\":true}}", u);
    let (route, upstream_id, message) = pool_answers(&mut mux, Pool::Primary, &reply);
    let actions = s.on_answer(route, upstream_id, message);
    assert_eq!(actions.len(), 2);
    assert_eq!(actions[0], ack(2, true));
    match &actions[0] {
        Action::ToMiner(m) => {
            assert_eq!(write_line(m).unwrap(), b"{\"id\":2,\"result\":true}\n".to_vec())
        }
        other => panic!("unexpected action {:?}", other),
    }
    let worker = s.worker().unwrap();
    assert_eq!(worker.worker_name, "w1");
    assert_eq!(worker.accepted, 1);
    assert_eq!(worker.rejected, 0);
    assert_eq!(worker.last_subwork_at, 20);
    assert_eq!(actions[1], Action::Report(worker));
    assert_eq!(s.waiting(), 0);
}

#[test]
fn skim_one_percent_hundred_shares() {
    let (mut s, mut mux) = session(ShareMode::Skim, 1);
    login(&mut s, &mut mux);
    let mut to_dev = 0;
    let mut acks = Vec::new();
    for n in 1..=100u64 {
        let (route, u) = submit(&mut s, &mut mux, 1000 + n);
        let pool = if route == Route::Dev {
            to_dev += 1;
            Pool::Fee
        } else {
            assert_eq!(route, Route::Real);
            Pool::Primary
        };
        let reply = format!("{{\"id\":{},\"result\":true}}", u);
        let (route, upstream_id, message) = pool_answers(&mut mux, pool, &reply);
        for action in s.on_answer(route, upstream_id, message) {
            if let Action::ToMiner(Message::Ack(Acknowledgement::Plain(a))) = action {
                assert!(a.result);
                acks.push(a.id);
            }
        }
    }
    assert_eq!(to_dev, 1);
    assert_eq!(acks, (1001..=1100u64).collect::<Vec<u64>>());
    assert_eq!(s.fee().submits_total(), 100);
    assert_eq!(s.fee().submits_dev(), 1);
    assert_eq!(s.worker().unwrap().accepted, 100);
}

#[test]
fn skim_ten_percent_ten_shares() {
    let (mut s, mut mux) = session(ShareMode::Skim, 10);
    login(&mut s, &mut mux);
    let mut dev = Vec::new();
    for n in 1..=10u64 {
        let (route, _) = submit(&mut s, &mut mux, n);
        if route == Route::Dev {
            dev.push(n);
        }
    }
    assert_eq!(dev, vec![10]);
}

#[test]
fn upstream_reset_mid_submit() {
    let (mut s, mut mux) = session(ShareMode::PureProxy, 0);
    login(&mut s, &mut mux);
    let (route, u) = submit(&mut s, &mut mux, 2);
    let (cancelled, step) = mux.on_disconnect(Pool::Primary);
    assert_eq!(step, Step::Dial(0));
    assert_eq!(cancelled.len(), 1);
    assert_eq!(cancelled[0].upstream_id, u);
    assert_eq!(cancelled[0].miner_id, 2);
    assert_eq!(cancelled[0].route, route);
    assert_eq!(cancelled[0].sent_at, 20);
    let actions = s.on_cancel(cancelled[0].route, cancelled[0].upstream_id, Cancel::UpstreamReset);
    assert_eq!(actions.len(), 2);
    assert_eq!(actions[0], stale(2));
    match &actions[0] {
        Action::ToMiner(m) => {
            let written = parse(&write_line(m).unwrap()).unwrap();
            let wanted =
                parse(br#"{"id":2,"result":false,"error":{"code":21,"message":"stale"}}"#).unwrap();
            assert_eq!(written, wanted);
        }
        other => panic!("unexpected action {:?}", other),
    }
    let worker = s.worker().unwrap();
    assert_eq!(worker.accepted, 0);
    assert_eq!(worker.rejected, 1);
    assert_eq!(s.waiting(), 0);
    let late = format!("{{\"id\":{},\"result\":true}}", u);
    assert_eq!(mux.on_pool_line(Pool::Primary, late.as_bytes()), Ok(PoolEvent::Unmatched));
}

#[test]
fn stratum_diff_rewrite() {
    let (mut s, mut mux) = session(ShareMode::PureProxy, 0);
    let line = br#"{"id":1,"method":"mining.subscribe","params":["miner/1.0","EthereumStratum/1.0.0"]}"#;
    let actions = s.on_miner_line(&mut mux, line, 0);
    assert_eq!(actions, vec![ack(1, true)]);
    assert_eq!(s.phase(), Phase::Subscribed);
    assert_eq!(s.variant(), ProtocolVariant::EthStratum100);
    let job = Message::JobV1(Job::Versioned(ServerSideJob {
        id: 0,
        jsonrpc: "2.0".to_string(),
        result: texts(&["job", "seed", "header", "0x01"]),
    }));
    let actions = s.on_job(job);
    assert_eq!(
        actions,
        vec![Action::ToMiner(Message::JobV1(Job::Versioned(ServerSideJob {
            id: 0,
            jsonrpc: "2.0".to_string(),
            result: texts(&["job", "seed", "header", "0xffff"]),
        })))]
    );
}

#[test]
fn a_getwork_miner_gets_the_job_unchanged() {
    let (mut s, mut mux) = session(ShareMode::PureProxy, 0);
    login(&mut s, &mut mux);
    assert_eq!(s.variant(), ProtocolVariant::EthGetwork);
    let job = Message::JobV1(Job::Plain(Server { id: 0, result: texts(&["j", "s", "h", "0x01"]) }));
    let actions = s.on_job(job.duplicate());
    assert_eq!(actions, vec![Action::ToMiner(job)]);
    assert_eq!(s.phase(), Phase::Mining);
    let actions = s.on_miner_line(&mut mux, br#"{"id":9,"method":"eth_getWork","params":[]}"#, 30);
    assert_eq!(
        actions,
        vec![Action::ToMiner(Message::JobV1(Job::Plain(Server {
            id: 9,
            result: texts(&["j", "s", "h", "0x01"]),
        })))]
    );
}

#[test]
fn a_job_without_a_diff_slot_is_forwarded_with_one_warning() {
    let (mut s, mut mux) = session(ShareMode::PureProxy, 0);
    let line = br#"{"id":1,"method":"eth_subscribe","params":["miner/1.0","EthereumStratum/1.0.0"]}"#;
    s.on_miner_line(&mut mux, line, 0);
    let job = Message::JobV1(Job::Plain(Server { id: 0, result: texts(&["j", "s", "h"]) }));
    let first = s.on_job(job.duplicate());
    assert_eq!(
        first,
        vec![Action::Warn(Warning::NoDifficultySlot), Action::ToMiner(job.duplicate())]
    );
    let second = s.on_job(job.duplicate());
    assert_eq!(second, vec![Action::ToMiner(job)]);
}

#[test]
fn hashrate_report() {
    let (mut s, mut mux) = session(ShareMode::PureProxy, 0);
    login(&mut s, &mut mux);
    let line = br#"{"id":6,"method":"eth_submitHashrate","params":["0x500000","0xrig"]}"#;
    let actions = s.on_miner_line(&mut mux, line, 40);
    assert_eq!(actions.len(), 2);
    assert_eq!(actions[0], ack(6, true));
    let worker = s.worker().unwrap();
    assert_eq!(worker.submit_hashrate, 5242880);
    assert_eq!(actions[1], Action::Report(worker));
}

#[test]
fn hashrate_before_login_is_only_acknowledged() {
    let (mut s, mut mux) = session(ShareMode::PureProxy, 0);
    let line = br#"{"id":6,"method":"eth_submitHashrate","params":["0x500000","0xrig"]}"#;
    assert_eq!(s.on_miner_line(&mut mux, line, 40), vec![ack(6, true)]);
    assert!(s.worker().is_none());
}

#[test]
fn login_without_parameters_closes_with_auth_error() {
    let (mut s, mut mux) = session(ShareMode::PureProxy, 0);
    let line = br#"{"id":1,"method":"eth_submitLogin","params":[]}"#;
    let actions = s.on_miner_line(&mut mux, line, 0);
    assert_eq!(actions, vec![Action::Close(CloseReason::AuthError)]);
    assert_eq!(s.phase(), Phase::Closing);
    assert!(s.worker().is_none());
}

#[test]
fn login_with_an_empty_or_malformed_wallet_closes_with_auth_error() {
    for wallet in ["", "0x AAA", "0xAAA\t", "wall\u{e9}t"] {
        let (mut s, mut mux) = session(ShareMode::PureProxy, 0);
        let line = format!(
            "{{\"id\":1,\"method\":\"eth_submitLogin\",\"params\":[\"{}\",\"x\"]}}",
            wallet.replace('\t', "\\t")
        );
        let actions = s.on_miner_line(&mut mux, line.as_bytes(), 0);
        assert_eq!(actions, vec![Action::Close(CloseReason::AuthError)]);
        assert_eq!(s.phase(), Phase::Closing);
    }
}

#[test]
fn login_without_worker_field_takes_the_wallet_suffix() {
    let (mut s, mut mux) = session(ShareMode::PureProxy, 0);
    let line = br#"{"id":1,"method":"eth_submitLogin","params":["0xAAA.rig9","x"]}"#;
    let actions = s.on_miner_line(&mut mux, line, 0);
    assert_eq!(
        actions[1],
        Action::Login {
            route: Route::Real,
            wallet: "0xAAA.rig9".to_string(),
            worker: "rig9".to_string(),
        }
    );
    assert_eq!(s.worker().unwrap().worker_name, "rig9");
    let (mut s, mut mux) = session(ShareMode::PureProxy, 0);
    let line = br#"{"id":1,"method":"eth_submitLogin","params":["0xAAA","x"]}"#;
    s.on_miner_line(&mut mux, line, 0);
    assert_eq!(s.worker().unwrap().worker_name, "Default");
}

#[test]
fn unified_mode_logs_in_with_the_unified_wallet() {
    let (mut s, mut mux) = session(ShareMode::UnifiedWallet, 5);
    let line = br#"{"id":1,"method":"eth_submitLogin","params":["0xAAA","x"],"worker":"w1"}"#;
    let actions = s.on_miner_line(&mut mux, line, 0);
    assert_eq!(
        actions[1],
        Action::Login {
            route: Route::Unified,
            wallet: "0xUNIFIED".to_string(),
            worker: "w1".to_string(),
        }
    );
    assert_eq!(s.worker().unwrap().login_wallet, "0xAAA");
    let (route, _) = submit(&mut s, &mut mux, 2);
    assert_eq!(route, Route::Unified);
    assert_eq!(s.fee().submits_unified(), 1);
}

#[test]
fn a_second_login_is_acknowledged_and_changes_nothing() {
    let (mut s, mut mux) = session(ShareMode::PureProxy, 0);
    login(&mut s, &mut mux);
    let before = s.worker();
    let line = br#"{"id":3,"method":"eth_submitLogin","params":["0xBBB","x"],"worker":"w2"}"#;
    assert_eq!(s.on_miner_line(&mut mux, line, 50), vec![ack(3, true)]);
    assert_eq!(s.worker(), before);
}

#[test]
fn a_share_before_login_is_refused() {
    let (mut s, mut mux) = session(ShareMode::Skim, 50);
    let line = br#"{"id":2,"method":"eth_submitWork","params":["n","h","m"]}"#;
    let actions = s.on_miner_line(&mut mux, line, 0);
    assert_eq!(
        actions,
        vec![Action::ToMiner(Message::ErrObj(ServerError {
            id: 2,
            result: false,
            error: EthError { code: 24, message: "unauthorized worker".to_string() },
        }))]
    );
    assert_eq!(s.waiting(), 0);
    assert_eq!(s.fee().submits_total(), 0);
    assert_eq!(mux.on_disconnect(Pool::Primary).0.len(), 0);
}

#[test]
fn answers_are_written_in_the_order_of_the_shares() {
    let (mut s, mut mux) = session(ShareMode::Skim, 50);
    login(&mut s, &mut mux);
    let (r1, u1) = submit(&mut s, &mut mux, 11);
    let (r2, u2) = submit(&mut s, &mut mux, 12);
    let (r3, u3) = submit(&mut s, &mut mux, 13);
    assert_eq!((r1, r2, r3), (Route::Real, Route::Dev, Route::Real));
    assert_eq!((u1, u2, u3), (1, 1, 2));
    let reject = Message::ErrObj(ServerError {
        id: u3,
        result: false,
        error: EthError { code: 23, message: "low difficulty".to_string() },
    });
    assert_eq!(s.on_answer(r3, u3, reject), Vec::<Action>::new());
    let accept = Message::Ack(Acknowledgement::Plain(ServerId1 { id: u2, result: true }));
    assert_eq!(s.on_answer(r2, u2, accept), Vec::<Action>::new());
    assert_eq!(s.waiting(), 3);
    let accept = Message::Ack(Acknowledgement::Plain(ServerId1 { id: u1, result: true }));
    let actions = s.on_answer(r1, u1, accept);
    assert_eq!(actions.len(), 4);
    assert_eq!(actions[0], ack(11, true));
    assert_eq!(actions[1], ack(12, true));
    assert_eq!(
        actions[2],
        Action::ToMiner(Message::ErrObj(ServerError {
            id: 13,
            result: false,
            error: EthError { code: 23, message: "low difficulty".to_string() },
        }))
    );
    let worker = s.worker().unwrap();
    assert_eq!((worker.accepted, worker.rejected), (2, 1));
    assert_eq!(actions[3], Action::Report(worker));
    assert_eq!(s.waiting(), 0);
}

#[test]
fn an_answer_to_no_waiting_share_is_dropped() {
    let (mut s, mut mux) = session(ShareMode::PureProxy, 0);
    login(&mut s, &mut mux);
    let (route, u) = submit(&mut s, &mut mux, 2);
    let other = Message::Ack(Acknowledgement::Plain(ServerId1 { id: 99, result: true }));
    assert_eq!(
        s.on_answer(route, 99, other),
        vec![Action::Warn(Warning::UnmatchedAnswer)]
    );
    let wrong_route = Message::Ack(Acknowledgement::Plain(ServerId1 { id: u, result: true }));
    assert_eq!(
        s.on_answer(Route::Dev, u, wrong_route),
        vec![Action::Warn(Warning::UnmatchedAnswer)]
    );
    let no_answer = Message::Submit(Client { id: u, method: "eth_submitWork".to_string(), params: Vec::new() });
    assert_eq!(
        s.on_answer(route, u, no_answer),
        vec![Action::Warn(Warning::UnmatchedAnswer)]
    );
    assert_eq!(s.on_cancel(route, 99, Cancel::UpstreamReset), vec![Action::Warn(Warning::UnmatchedAnswer)]);
    assert_eq!(s.waiting(), 1);
}

#[test]
fn a_timed_out_share_is_answered_as_stale_and_logged() {
    let (mut s, mut mux) = session(ShareMode::PureProxy, 0);
    login(&mut s, &mut mux);
    let (route, u) = submit(&mut s, &mut mux, 2);
    assert_eq!(mux.on_tick(Pool::Primary, 80).len(), 0);
    let expired = mux.on_tick(Pool::Primary, 81);
    assert_eq!(expired.len(), 1);
    assert_eq!(expired[0].upstream_id, u);
    let actions = s.on_cancel(route, u, Cancel::SubmitTimeout);
    assert_eq!(actions.len(), 3);
    assert_eq!(actions[0], Action::Warn(Warning::SubmitTimeout));
    assert_eq!(actions[1], stale(2));
    assert_eq!(s.worker().unwrap().rejected, 1);
}

#[test]
fn an_unknown_request_is_logged_and_forwarded_as_it_came() {
    let (mut s, mut mux) = session(ShareMode::PureProxy, 0);
    let line = br#"{"id":3,"method":"eth_somethingNew","params":[]}"#;
    assert_eq!(
        s.on_miner_line(&mut mux, line, 0),
        vec![Action::Warn(Warning::UnknownMessage), Action::ForwardToPool(line.to_vec())]
    );
    assert_eq!(s.phase(), Phase::Connected);
}

#[test]
fn a_line_that_is_no_json_closes_the_session() {
    let (mut s, mut mux) = session(ShareMode::PureProxy, 0);
    login(&mut s, &mut mux);
    submit(&mut s, &mut mux, 2);
    assert_eq!(
        s.on_miner_line(&mut mux, b"not json", 0),
        vec![Action::Close(CloseReason::Protocol(ProtocolError::NotJson))]
    );
    assert_eq!(s.phase(), Phase::Closing);
    assert_eq!(s.waiting(), 0);
    assert_eq!(s.on_miner_line(&mut mux, b"{}", 0), Vec::<Action>::new());
    assert_eq!(s.on_miner_closed(), Vec::<Action>::new());
}

#[test]
fn a_closed_session_ignores_everything() {
    let (mut s, mut mux) = session(ShareMode::PureProxy, 0);
    login(&mut s, &mut mux);
    assert_eq!(s.on_miner_closed(), vec![Action::Close(CloseReason::MinerGone)]);
    let job = Message::JobV1(Job::Plain(Server { id: 0, result: texts(&["j", "s", "h", "0x01"]) }));
    assert_eq!(s.on_job(job), Vec::<Action>::new());
    let line = br#"{"id":2,"method":"eth_submitWork","params":["n","h","m"]}"#;
    assert_eq!(s.on_miner_line(&mut mux, line, 0), Vec::<Action>::new());
    let a = Message::Ack(Acknowledgement::Plain(ServerId1 { id: 1, result: true }));
    assert_eq!(s.on_answer(Route::Real, 1, a), Vec::<Action>::new());
    assert_eq!(s.on_cancel(Route::Real, 1, Cancel::UpstreamReset), Vec::<Action>::new());
    assert_eq!(s.on_upstream_gone(), Vec::<Action>::new());
    assert_eq!(s.on_protocol_error(ProtocolError::OversizedFrame), Vec::<Action>::new());
}

#[test]
fn the_reasons_for_closing() {
    let (mut s, _) = session(ShareMode::PureProxy, 0);
    assert_eq!(s.on_upstream_gone(), vec![Action::Close(CloseReason::UpstreamGone)]);
    let (mut s, _) = session(ShareMode::PureProxy, 0);
    assert_eq!(
        s.on_protocol_error(ProtocolError::OversizedFrame),
        vec![Action::Close(CloseReason::Protocol(ProtocolError::OversizedFrame))]
    );
    assert_eq!(s.id(), 7);
    assert!(s.has_room());
}

#[test]
fn an_answer_in_tuple_form_keeps_its_form_under_the_miners_id() {
    let (mut s, mut mux) = session(ShareMode::PureProxy, 0);
    login(&mut s, &mut mux);
    let (route, u) = submit(&mut s, &mut mux, 42);
    let reply = format!("{{\"id\":{},\"result\":false,\"error\":[21,\"Job not found (=stale)\",null]}}", u);
    let (route2, upstream_id, message) = pool_answers(&mut mux, Pool::Primary, &reply);
    assert_eq!(route2, route);
    let actions = s.on_answer(route, upstream_id, message);
    match &actions[0] {
        Action::ToMiner(m) => {
            let written = parse(&write_line(m).unwrap()).unwrap();
            let wanted =
                parse(br#"{"id":42,"result":false,"error":[21,"Job not found (=stale)",null]}"#)
                    .unwrap();
            assert_eq!(written, wanted);
        }
        other => panic!("unexpected action {:?}", other),
    }
    assert_eq!(s.worker().unwrap().rejected, 1);
}

#[test]
fn an_answer_whose_id_field_cannot_hold_the_miners_id_is_written_in_object_form() {
    let (mut s, mut mux) = session(ShareMode::PureProxy, 0);
    login(&mut s, &mut mux);
    let (route, u) = submit(&mut s, &mut mux, u64::MAX);
    let reply = format!("{{\"id\":{},\"result\":false,\"error\":[-2,\"bad\",null]}}", u);
    let (_, upstream_id, message) = pool_answers(&mut mux, Pool::Primary, &reply);
    let actions = s.on_answer(route, upstream_id, message);
    assert_eq!(
        actions[0],
        Action::ToMiner(Message::ErrObj(ServerError {
            id: u64::MAX,
            result: false,
            error: EthError { code: 0, message: "bad".to_string() },
        }))
    );
}

#[test]
fn the_upstream_login_carries_wallet_password_and_worker() {
    let m = login_message("0xAAA".to_string(), "w1".to_string());
    assert_eq!(
        m,
        Message::LoginWithWorker(mining_proxy::protocol::rpc::eth::ClientWithWorkerName {
            id: 0,
            method: "eth_submitLogin".to_string(),
            params: texts(&["0xAAA", "x"]),
            worker: "w1".to_string(),
        })
    );
    let written = parse(&write_line(&m).unwrap()).unwrap();
    let wanted =
        parse(br#"{"id":0,"method":"eth_submitLogin","params":["0xAAA","x"],"worker":"w1"}"#)
            .unwrap();
    assert_eq!(written, wanted);
}

#[test]
fn a_new_session_has_counted_nothing() {
    let (s, _) = session(ShareMode::Skim, 10);
    assert_eq!(s.fee().submits_total(), 0);
    assert_eq!(s.fee().submits_dev(), 0);
    assert_eq!(s.fee().submits_unified(), 0);
    assert_eq!(s.phase(), Phase::Connected);
    assert_eq!(s.variant(), ProtocolVariant::EthGetwork);
    assert_eq!(s.waiting(), 0);
    assert!(s.worker().is_none());
}
