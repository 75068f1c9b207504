use mining_proxy::protocol::json::{parse, Json};
use mining_proxy::protocol::rpc::eth::{
    classify_rejection, handle_error, handle_error_for_worker, Client, ClientGetWork, ClientRpc,
    ClientSubmitHashrate, ClientWithWorkerName, EthError, Rejection, Server, ServerError, ServerId,
    ServerId1, ServerJobsWithHeight, ServerRoot, ServerRootError, ServerRootErrorValue, ServerRpc,
    ServerSideJob,
};

fn texts(items: &[&str]) -> Vec<String> {
    items.iter().map(|s| s.to_string()).collect()
}

fn client(params: &[&str]) -> Client {
    Client { id: 7, method: "eth_submitLogin".to_string(), params: texts(params) }
}

#[test]
fn client_accessors() {
    let mut c = client(&["0xabc.rig1", "x"]);
    assert_eq!(c.get_id(), 7);
    assert!(c.set_id(9));
    assert_eq!(c.get_id(), 9);
    assert_eq!(c.get_eth_wallet(), Some("0xabc.rig1".to_string()));
    assert_eq!(c.get_job_id(), Some("x".to_string()));
    assert_eq!(c.get_worker_name(), "rig1");
    assert!(c.set_worker_name("other"));
    assert_eq!(c.get_worker_name(), "rig1");
    let mut empty = client(&[]);
    assert_eq!(empty.get_eth_wallet(), None);
    assert_eq!(empty.get_job_id(), None);
    assert_eq!(empty.get_worker_name(), "Default");
    assert_eq!(empty.get_submit_hashrate(), 0);
}

#[test]
fn worker_name_is_the_wallet_suffix_or_default() {
    assert_eq!(client(&["0xabc"]).get_worker_name(), "Default");
    assert_eq!(client(&["0xabc."]).get_worker_name(), "Default");
    assert_eq!(client(&["0xabc.a.b"]).get_worker_name(), "a.b");
    assert_eq!(client(&[".w"]).get_worker_name(), "w");
}

#[test]
fn named_client_accessors() {
    let mut c = ClientWithWorkerName {
        id: 1,
        method: "eth_submitLogin".to_string(),
        params: texts(&["0xabc.rig1", "x"]),
        worker: "rig2".to_string(),
    };
    assert_eq!(c.get_worker_name(), "rig2");
    assert!(c.set_worker_name("rig3"));
    assert_eq!(c.get_worker_name(), "rig3");
    assert_eq!(c.worker, "rig3");
    assert!(c.set_id(4));
    assert_eq!(c.get_id(), 4);
    assert_eq!(c.get_eth_wallet(), Some("0xabc.rig1".to_string()));
    assert_eq!(c.get_job_id(), Some("x".to_string()));
}

#[test]
fn hashrate_is_read_with_or_without_prefix() {
    assert_eq!(client(&["0x500000", "id"]).get_submit_hashrate(), 5242880);
    assert_eq!(client(&["500000", "id"]).get_submit_hashrate(), 5242880);
    assert_eq!(client(&["0xzz"]).get_submit_hashrate(), 0);
    assert_eq!(client(&[""]).get_submit_hashrate(), 0);
    assert_eq!(client(&["x"]).get_submit_hashrate(), 0);
    let named = ClientWithWorkerName {
        id: 1,
        method: "eth_submitHashrate".to_string(),
        params: texts(&["0x10"]),
        worker: "w".to_string(),
    };
    assert_eq!(named.get_submit_hashrate(), 16);
}

#[test]
fn stratum_is_selected_by_the_second_parameter() {
    assert!(client(&["miner/1.0", "EthereumStratum/1.0.0"]).if_parse_protocol_eth_statum());
    assert!(!client(&["miner/1.0", "EthereumStratum/2.0.0"]).if_parse_protocol_eth_statum());
    assert!(!client(&["EthereumStratum/1.0.0"]).if_parse_protocol_eth_statum());
    assert!(!client(&[]).if_parse_protocol_eth_statum());
}

#[test]
fn job_accessors() {
    let mut job = ServerSideJob {
        id: 0,
        jsonrpc: "2.0".to_string(),
        result: texts(&["0xjob", "0xseed", "0xheader", "0x0a"]),
    };
    assert_eq!(job.get_job_id(), Some("0xjob".to_string()));
    assert_eq!(job.get_diff(), 10);
    assert!(job.set_diff("0xff".to_string()));
    assert_eq!(job.result[3], "0xff");
    assert_eq!(job.get_diff(), 255);
    assert!(job.set_id(3));
    assert_eq!(job.get_id(), 3);
    assert!(job.set_result(texts(&["a", "b", "c"])));
    assert_eq!(job.get_diff(), 0);
    assert!(job.set_diff("0x01".to_string()));
    assert_eq!(job.result, texts(&["a", "b", "c"]));
    assert!(job.set_result(Vec::new()));
    assert_eq!(job.get_job_id(), None);
}

#[test]
fn diff_is_read_with_or_without_prefix() {
    let bare = Server { id: 0, result: texts(&["j", "s", "h", "ff"]) };
    assert_eq!(bare.get_diff(), 255);
    let odd = Server { id: 0, result: texts(&["j", "s", "h", "a0x1"]) };
    assert_eq!(odd.get_diff(), 0);
    let mut server = Server { id: 5, result: texts(&["j", "s", "h", "0x2", "extra"]) };
    assert_eq!(server.get_diff(), 2);
    assert_eq!(server.get_id(), 5);
    assert!(server.set_diff("0x3".to_string()));
    assert_eq!(server.result, texts(&["j", "s", "h", "0x3", "extra"]));
    assert_eq!(server.get_job_id(), Some("j".to_string()));
}

#[test]
fn height_stands_for_difficulty() {
    let mut job = ServerJobsWithHeight {
        id: 0,
        result: texts(&["0xjob", "0xseed", "0xheader", "00"]),
        jsonrpc: "2.0".to_string(),
        height: 13834471,
    };
    assert_eq!(job.get_diff(), 13834471);
    assert!(job.set_diff("0x5".to_string()));
    assert_eq!(job.result[3], "0x5");
    assert_eq!(job.get_diff(), 13834471);
    assert_eq!(job.get_job_id(), Some("0xjob".to_string()));
    assert!(job.set_id(8));
    assert_eq!(job.get_id(), 8);
}

#[test]
fn error_text() {
    let e = EthError { code: 21, message: "stale".to_string() };
    assert_eq!(e.to_string(), "code: 21  msg : stale");
    assert_eq!(EthError::default().to_string(), "code: 0  msg : ");
}

#[test]
fn each_shape_is_written_and_read_back() {
    let c = client(&["0xabc", "x"]);
    assert_eq!(Client::from_json(&c.to_json()), Some(c));
    let g = ClientGetWork { id: 3, method: "eth_getWork".to_string(), params: Vec::new() };
    assert_eq!(ClientGetWork::from_json(&g.to_json()), Some(g));
    let h = ClientSubmitHashrate { id: 3, method: "eth_submitHashrate".to_string(), params: texts(&["0x1", "w"]) };
    assert_eq!(ClientSubmitHashrate::from_json(&h.to_json()), Some(h));
    let n = ClientWithWorkerName { id: 1, method: "m".to_string(), params: texts(&["a"]), worker: "w".to_string() };
    assert_eq!(ClientWithWorkerName::from_json(&n.to_json()), Some(n));
    let j = ServerSideJob { id: 0, jsonrpc: "2.0".to_string(), result: texts(&["a", "b", "c"]) };
    assert_eq!(ServerSideJob::from_json(&j.to_json()), Some(j));
    let s = Server { id: 0, result: texts(&["a", "b", "c", "d"]) };
    assert_eq!(Server::from_json(&s.to_json()), Some(s));
    let w = ServerJobsWithHeight { id: 0, result: texts(&["a"]), jsonrpc: "2.0".to_string(), height: 9 };
    assert_eq!(ServerJobsWithHeight::from_json(&w.to_json()), Some(w));
    let r = ServerRoot { id: 4, result: false, error: "bad".to_string() };
    assert_eq!(ServerRoot::from_json(&r.to_json()), Some(r));
    let e = ServerError { id: 4, result: false, error: EthError { code: 23, message: "low".to_string() } };
    assert_eq!(ServerError::from_json(&e.to_json()), Some(e));
    let a = ServerId1 { id: 4, result: true };
    assert_eq!(ServerId1::from_json(&a.to_json()), Some(a));
    let v = ServerId { id: 4, jsonrpc: "2.0".to_string(), result: true };
    assert_eq!(ServerId::from_json(&v.to_json()), Some(v));
    let t = ServerRootError { id: -1, result: false, error: (21, "Job not found (=stale)".to_string(), Json::Null) };
    assert_eq!(ServerRootError::from_json(&t.to_json()), Some(t));
    let l = ServerRootErrorValue { id: 197, result: Json::Array(vec![Json::Unsigned(1)]), error: "e".to_string() };
    assert_eq!(ServerRootErrorValue::from_json(&l.to_json()), Some(l));
}

#[test]
fn a_shape_needs_all_its_members_with_their_types() {
    let no_params = parse(br#"{"id":1,"method":"eth_getWork"}"#).unwrap();
    assert_eq!(Client::from_json(&no_params), None);
    let text_id = parse(br#"{"id":"1","method":"eth_getWork","params":[]}"#).unwrap();
    assert_eq!(Client::from_json(&text_id), None);
    let negative_id = parse(br#"{"id":-1,"method":"eth_getWork","params":[]}"#).unwrap();
    assert_eq!(Client::from_json(&negative_id), None);
    let number_param = parse(br#"{"id":1,"method":"eth_getWork","params":[1]}"#).unwrap();
    assert_eq!(Client::from_json(&number_param), None);
    let extra = parse(br#"{"id":1,"method":"eth_getWork","params":[],"jsonrpc":"2.0"}"#).unwrap();
    assert_eq!(
        Client::from_json(&extra),
        Some(Client { id: 1, method: "eth_getWork".to_string(), params: Vec::new() })
    );
    let short_triple = parse(br#"{"id":1,"result":false,"error":[21,"stale"]}"#).unwrap();
    assert_eq!(ServerRootError::from_json(&short_triple), None);
    let long_triple = parse(br#"{"id":1,"result":false,"error":[21,"stale",null,null]}"#).unwrap();
    assert_eq!(ServerRootError::from_json(&long_triple), None);
    assert_eq!(Client::from_json(&Json::Array(Vec::new())), None);
}

#[test]
fn rejections_are_told_by_the_form_of_the_error() {
    let coded = br#"{"id":4,"result":false,"error":{"code":23,"message":"low difficulty"}}"#;
    assert_eq!(
        classify_rejection(Some(&parse(coded).unwrap()), coded),
        Rejection::Coded(EthError { code: 23, message: "low difficulty".to_string() })
    );
    let text = br#"{"id":4,"result":false,"error":"bad"}"#;
    assert_eq!(classify_rejection(Some(&parse(text).unwrap()), text), Rejection::Unexplained);
    let triple = br#"{"id":197,"result":false,"error":[21,"Job not found (=stale)",null]}"#;
    assert_eq!(
        classify_rejection(Some(&parse(triple).unwrap()), triple),
        Rejection::Described("Job not found (=stale)".to_string())
    );
    let other = br#"{"id":4}"#;
    assert_eq!(
        classify_rejection(Some(&parse(other).unwrap()), other),
        Rejection::Unrecognised(other.to_vec())
    );
    assert_eq!(classify_rejection(None, b"??"), Rejection::Unrecognised(b"??".to_vec()));
    let long = vec![b'x'; 300];
    assert_eq!(classify_rejection(None, &long), Rejection::Unrecognised(vec![b'x'; 256]));
}

#[test]
fn handle_error_writes_the_line_for_the_log() {
    assert_eq!(
        handle_error(12, br#"{"id":4,"result":false,"error":{"code":23,"message":"low"}}"#),
        Some("fee worker 12 Share Reject: code: 23  msg : low".to_string())
    );
    assert_eq!(handle_error(12, br#"{"id":4,"result":false,"error":"bad"}"#), None);
    assert_eq!(
        handle_error(0, br#"{"id":197,"result":false,"error":[21,"Job not found (=stale)",null]}"#),
        Some("fee worker 0 Share Reject: Job not found (=stale)".to_string())
    );
    assert_eq!(handle_error(3, b"{}"), Some("fee worker 3 Share Reject: [123, 125]".to_string()));
    assert_eq!(handle_error(3, b""), Some("fee worker 3 Share Reject: []".to_string()));
    assert_eq!(handle_error(3, b"a"), Some("fee worker 3 Share Reject: [97]".to_string()));
}

#[test]
fn handle_error_for_worker_names_the_worker() {
    let name = "rig1".to_string();
    assert_eq!(
        handle_error_for_worker(&name, br#"{"id":4,"result":false,"error":{"code":23,"message":"low"}}"#),
        Some("worker rig1 Share Reject: code: 23  msg : low".to_string())
    );
    assert_eq!(handle_error_for_worker(&name, br#"{"id":4,"result":true,"error":"bad"}"#), None);
    assert_eq!(
        handle_error_for_worker(&name, br#"{"id":1,"result":false,"error":[21,"stale",{"a":1}]}"#),
        Some("worker rig1 Share Reject: stale".to_string())
    );
    assert_eq!(
        handle_error_for_worker(&name, b"no"),
        Some("worker rig1 Share Reject: [110, 111]".to_string())
    );
}

#[test]
fn the_error_shapes_can_be_copied_and_have_a_default() {
    let t = ServerRootError { id: -1, result: false, error: (21, "stale".to_string(), Json::Unsigned(3)) };
    assert_eq!(t.clone(), t);
    assert_eq!(
        ServerRootError::default(),
        ServerRootError { id: 0, result: false, error: (0, String::new(), Json::Null) }
    );
    let l = ServerRootErrorValue { id: 2, result: Json::Bool(true), error: "e".to_string() };
    assert_eq!(l.clone(), l);
    assert_eq!(
        ServerRootErrorValue::default(),
        ServerRootErrorValue { id: 0, result: Json::Null, error: String::new() }
    );
    assert_eq!(Json::default(), Json::Null);
}
