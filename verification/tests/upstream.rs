use mining_proxy::fee::Route;
use mining_proxy::protocol::error::ProtocolError;
use mining_proxy::protocol::message::{Job, Message};
use mining_proxy::protocol::rpc::eth::Server;
use mining_proxy::upstream::{
    pool_for, Dialer, InFlight, Multiplexer, Pick, Pool, PoolEvent, Step, UpstreamConn, BACKOFF_MAX,
    BACKOFF_START, STALE_AFTER,
};

fn texts(items: &[&str]) -> Vec<String> {
    items.iter().map(|s| s.to_string()).collect()
}

#[test]
fn addresses_are_dialled_in_order_and_pauses_double() {
    let mut dialer = Dialer::new(3);
    assert_eq!(dialer.start(), Step::Dial(0));
    assert_eq!(dialer.failed(), Step::Dial(1));
    assert_eq!(dialer.failed(), Step::Dial(2));
    assert_eq!(dialer.failed(), Step::Pause(5));
    assert_eq!(dialer.start(), Step::Dial(0));
    let mut pauses = Vec::new();
    for _ in 0..7 {
        assert_eq!(dialer.failed(), Step::Dial(1));
        assert_eq!(dialer.failed(), Step::Dial(2));
        match dialer.failed() {
            Step::Pause(secs) => pauses.push(secs),
            other => panic!("unexpected step {:?}", other),
        }
    }
    assert_eq!(pauses, vec![10, 20, 40, 80, 120, 120, 120]);
    assert_eq!(BACKOFF_START, 5);
    assert_eq!(BACKOFF_MAX, 120);
}

#[test]
fn a_connection_resets_the_pause() {
    let mut dialer = Dialer::new(1);
    assert_eq!(dialer.failed(), Step::Pause(5));
    assert_eq!(dialer.failed(), Step::Pause(10));
    dialer.connected();
    assert_eq!(dialer.failed(), Step::Pause(5));
    assert_eq!(dialer.failed(), Step::Pause(10));
    assert_eq!(dialer.dropped(), Step::Dial(0));
    assert_eq!(dialer.failed(), Step::Pause(5));
}

#[test]
fn without_addresses_there_is_nothing_to_dial() {
    let mut dialer = Dialer::new(0);
    assert_eq!(dialer.start(), Step::GiveUp);
    assert_eq!(dialer.failed(), Step::GiveUp);
    assert_eq!(dialer.dropped(), Step::GiveUp);
}

#[test]
fn ids_rise_and_answers_find_their_requests() {
    let mut conn = UpstreamConn::new();
    assert!(conn.has_room());
    let a = conn.reserve(1, 100, Route::Real, 5);
    let b = conn.reserve(2, 100, Route::Real, 6);
    let c = conn.reserve(1, 101, Route::Real, 7);
    assert_eq!((a, b, c), (1, 2, 3));
    assert_eq!(conn.pending(), 3);
    assert_eq!(
        conn.resolve(b),
        Some(InFlight { upstream_id: 2, session: 2, miner_id: 100, route: Route::Real, sent_at: 6 })
    );
    assert_eq!(conn.resolve(b), None);
    assert_eq!(conn.resolve(77), None);
    assert_eq!(conn.pending(), 2);
    assert_eq!(conn.reserve(3, 5, Route::Unified, 8), 4);
}

#[test]
fn requests_older_than_a_minute_expire() {
    let mut conn = UpstreamConn::new();
    conn.reserve(1, 10, Route::Real, 0);
    conn.reserve(1, 11, Route::Real, 30);
    conn.reserve(1, 12, Route::Real, 61);
    assert_eq!(STALE_AFTER, 60);
    assert_eq!(conn.expire(60).len(), 0);
    let out = conn.expire(61);
    assert_eq!(out.len(), 1);
    assert_eq!(out[0].miner_id, 10);
    let out = conn.expire(121);
    assert_eq!(out.iter().map(|e| e.miner_id).collect::<Vec<u64>>(), vec![11]);
    assert_eq!(conn.pending(), 1);
    assert_eq!(conn.expire(0).len(), 0);
}

#[test]
fn a_reset_cancels_everything_in_order() {
    let mut conn = UpstreamConn::new();
    conn.reserve(1, 10, Route::Real, 0);
    conn.reserve(2, 11, Route::Real, 1);
    let out = conn.reset();
    assert_eq!(out.iter().map(|e| e.upstream_id).collect::<Vec<u64>>(), vec![1, 2]);
    assert_eq!(conn.pending(), 0);
    assert_eq!(conn.reserve(1, 12, Route::Real, 2), 3);
}

#[test]
fn taking_out_by_session_leaves_the_others() {
    let mut conn = UpstreamConn::new();
    conn.reserve(1, 10, Route::Real, 0);
    conn.reserve(2, 11, Route::Real, 1);
    conn.reserve(1, 12, Route::Real, 2);
    let out = conn.take_out(Pick::OfSession(1));
    assert_eq!(out.iter().map(|e| e.miner_id).collect::<Vec<u64>>(), vec![10, 12]);
    assert_eq!(conn.pending(), 1);
    assert_eq!(conn.resolve(2).unwrap().session, 2);
}

#[test]
fn jobs_go_to_the_subscribers_in_the_order_they_subscribed() {
    let mut conn = UpstreamConn::new();
    conn.subscribe(3);
    conn.subscribe(1);
    conn.subscribe(3);
    conn.subscribe(2);
    assert_eq!(conn.listeners(), vec![3, 1, 2]);
    assert_eq!(conn.last_job(), None);
    assert_eq!(conn.deliver_job(&texts(&["j", "s", "h"])), vec![3, 1, 2]);
    assert_eq!(conn.last_job(), Some(texts(&["j", "s", "h"])));
    conn.reserve(1, 5, Route::Real, 0);
    let dropped = conn.drop_session(1);
    assert_eq!(dropped.len(), 1);
    assert_eq!(conn.listeners(), vec![3, 2]);
    assert_eq!(conn.drop_session(9).len(), 0);
    assert_eq!(conn.listeners(), vec![3, 2]);
}

#[test]
fn the_multiplexer_keeps_the_two_pools_apart() {
    let mut mux = Multiplexer::new(2, 1);
    assert!(mux.has_room(Route::Real));
    assert!(mux.has_room(Route::Dev));
    assert_eq!(mux.reserve(Route::Real, 1, 10, 0), 1);
    assert_eq!(mux.reserve(Route::Dev, 1, 11, 0), 1);
    assert_eq!(mux.reserve(Route::Unified, 1, 12, 0), 2);
    match mux.on_pool_line(Pool::Fee, br#"{"id":1,"result":true}"#) {
        Ok(PoolEvent::Answer { entry, .. }) => {
            assert_eq!(entry.miner_id, 11);
            assert_eq!(entry.route, Route::Dev);
        }
        other => panic!("unexpected event {:?}", other),
    }
    assert_eq!(mux.on_pool_line(Pool::Fee, br#"{"id":1,"result":true}"#), Ok(PoolEvent::Unmatched));
    match mux.on_pool_line(Pool::Primary, br#"{"id":2,"result":false,"error":"no"}"#) {
        Ok(PoolEvent::Answer { entry, .. }) => {
            assert_eq!(entry.miner_id, 12);
            assert_eq!(entry.route, Route::Unified);
        }
        other => panic!("unexpected event {:?}", other),
    }
    assert_eq!(
        mux.on_pool_line(Pool::Primary, br#"{"id":-1,"result":false,"error":"no"}"#),
        Ok(PoolEvent::Unmatched)
    );
    assert_eq!(mux.on_pool_line(Pool::Primary, b"garbage"), Err(ProtocolError::NotJson));
}

#[test]
fn jobs_of_the_real_pool_fan_out_and_those_of_the_fee_pool_do_not() {
    let mut mux = Multiplexer::new(1, 1);
    assert_eq!(mux.attach(4), None);
    assert_eq!(mux.attach(5), None);
    let line = br#"{"id":0,"result":["j","s","h","0x01"]}"#;
    let job = Message::JobV1(Job::Plain(Server { id: 0, result: texts(&["j", "s", "h", "0x01"]) }));
    assert_eq!(
        mux.on_pool_line(Pool::Primary, line),
        Ok(PoolEvent::Job { sessions: vec![4, 5], job })
    );
    assert_eq!(mux.on_pool_line(Pool::Fee, line), Ok(PoolEvent::Dropped));
    assert_eq!(mux.attach(6), Some(texts(&["j", "s", "h", "0x01"])));
    assert_eq!(
        mux.on_pool_line(Pool::Primary, br#"{"method":"new"}"#),
        Ok(PoolEvent::Forward { sessions: vec![4, 5, 6] })
    );
    assert_eq!(mux.on_pool_line(Pool::Fee, br#"{"method":"new"}"#), Ok(PoolEvent::Dropped));
    mux.reserve(Route::Real, 5, 1, 0);
    mux.reserve(Route::Dev, 5, 2, 0);
    mux.detach(5);
    assert_eq!(
        mux.on_pool_line(Pool::Primary, br#"{"method":"new"}"#),
        Ok(PoolEvent::Forward { sessions: vec![4, 6] })
    );
    assert_eq!(mux.on_disconnect(Pool::Primary).0.len(), 0);
    assert_eq!(mux.on_disconnect(Pool::Fee).0.len(), 0);
}

#[test]
fn the_multiplexer_dials_each_pool_on_its_own() {
    let mut mux = Multiplexer::new(2, 1);
    assert_eq!(mux.start(Pool::Primary), Step::Dial(0));
    assert_eq!(mux.on_connect_failed(Pool::Primary), Step::Dial(1));
    assert_eq!(mux.on_connect_failed(Pool::Fee), Step::Pause(5));
    assert_eq!(mux.on_connect_failed(Pool::Primary), Step::Pause(5));
    assert_eq!(mux.on_connect_failed(Pool::Fee), Step::Pause(10));
    mux.on_connected(Pool::Fee);
    assert_eq!(mux.on_connect_failed(Pool::Fee), Step::Pause(5));
    assert_eq!(mux.on_connect_failed(Pool::Primary), Step::Dial(1));
    assert_eq!(mux.on_connect_failed(Pool::Primary), Step::Pause(10));
    let none = Multiplexer::new(1, 0);
    assert_eq!(none.start(Pool::Fee), Step::GiveUp);
}

#[test]
fn every_address_is_dialled_before_the_pause() {
    let mut mux = Multiplexer::new(3, 0);
    assert_eq!(mux.start(Pool::Primary), Step::Dial(0));
    assert_eq!(mux.on_connect_failed(Pool::Primary), Step::Dial(1));
    assert_eq!(mux.start(Pool::Primary), Step::Dial(1));
    assert_eq!(mux.on_connect_failed(Pool::Primary), Step::Dial(2));
    assert_eq!(mux.start(Pool::Primary), Step::Dial(2));
    assert_eq!(mux.on_connect_failed(Pool::Primary), Step::Pause(5));
    assert_eq!(mux.start(Pool::Primary), Step::Dial(0));
    assert_eq!(mux.on_connect_failed(Pool::Fee), Step::GiveUp);
    assert_eq!(mux.start(Pool::Primary), Step::Dial(0));
}

#[test]
fn each_route_has_its_pool() {
    assert_eq!(pool_for(Route::Real), Pool::Primary);
    assert_eq!(pool_for(Route::Unified), Pool::Primary);
    assert_eq!(pool_for(Route::Dev), Pool::Fee);
}
