use mining_proxy::protocol::error::ProtocolError;
use mining_proxy::protocol::json::{parse, Json};
use mining_proxy::protocol::message::{
    read_miner_line, read_pool_line, write_line, Acknowledgement, Job, Message,
};
use mining_proxy::protocol::rpc::eth::{
    Client, ClientGetWork, ClientSubmitHashrate, ClientWithWorkerName, EthError, Server,
    ServerError, ServerId, ServerId1, ServerJobsWithHeight, ServerRootError, ServerRootErrorValue,
    ServerSideJob,
};

fn texts(items: &[&str]) -> Vec<String> {
    items.iter().map(|s| s.to_string()).collect()
}

fn request(method: &str, params: &[&str]) -> Client {
    Client { id: 5, method: method.to_string(), params: texts(params) }
}

fn every_message() -> Vec<Message> {
    vec![
        Message::Login(request("eth_submitLogin", &["0xabc", "x"])),
        Message::LoginWithWorker(ClientWithWorkerName {
            id: 1,
            method: "eth_submitLogin".to_string(),
            params: texts(&["0xabc", "x"]),
            worker: "w1".to_string(),
        }),
        Message::Submit(request("eth_submitWork", &["0xNONCE", "0xHEADER", "0xMIX"])),
        Message::Hashrate(ClientSubmitHashrate {
            id: 6,
            method: "eth_submitHashrate".to_string(),
            params: texts(&["0x500000", "0xid"]),
        }),
        Message::GetWork(ClientGetWork { id: 7, method: "eth_getWork".to_string(), params: Vec::new() }),
        Message::Subscribe(request("mining.subscribe", &["miner/1.0", "EthereumStratum/1.0.0"])),
        Message::Subscribe(request("eth_subscribe", &[])),
        Message::JobV1(Job::Plain(Server { id: 0, result: texts(&["j", "s", "h"]) })),
        Message::JobV1(Job::Versioned(ServerSideJob {
            id: 0,
            jsonrpc: "2.0".to_string(),
            result: texts(&["j", "s", "h", "0x01"]),
        })),
        Message::JobWithHeight(ServerJobsWithHeight {
            id: 0,
            result: texts(&["j", "s", "h", "00"]),
            jsonrpc: "2.0".to_string(),
            height: 13834471,
        }),
        Message::Ack(Acknowledgement::Plain(ServerId1 { id: 2, result: true })),
        Message::Ack(Acknowledgement::Versioned(ServerId {
            id: 4,
            jsonrpc: "2.0".to_string(),
            result: false,
        })),
        Message::ErrObj(ServerError {
            id: 9,
            result: false,
            error: EthError { code: 21, message: "stale".to_string() },
        }),
        Message::ErrTuple(ServerRootError {
            id: 197,
            result: false,
            error: (21, "Job not found (=stale)".to_string(), Json::Null),
        }),
        Message::ErrString(ServerRootErrorValue {
            id: 3,
            result: Json::Bool(false),
            error: "bad".to_string(),
        }),
    ]
}

fn is_from_miner(m: &Message) -> bool {
    matches!(
        m,
        Message::Login(_)
            | Message::LoginWithWorker(_)
            | Message::Submit(_)
            | Message::Hashrate(_)
            | Message::GetWork(_)
            | Message::Subscribe(_)
    )
}

#[test]
fn a_written_message_reads_back_as_itself() {
    for m in every_message() {
        let doc = m.to_json();
        let back = if is_from_miner(&m) { Message::from_miner(&doc) } else { Message::from_pool(&doc) };
        assert_eq!(back, Some(m.duplicate()));
        let line = write_line(&m).unwrap();
        assert_eq!(line.last(), Some(&b'\n'));
        let read = if is_from_miner(&m) { read_miner_line(&line) } else { read_pool_line(&line) };
        assert_eq!(read, Ok(Some(m)));
    }
}

#[test]
fn the_order_of_members_does_not_matter() {
    let a = read_miner_line(br#"{"id":1,"method":"eth_submitLogin","params":["0xAAA","x"],"worker":"w1"}"#);
    let b = read_miner_line(br#"{"worker":"w1","params":["0xAAA","x"],"method":"eth_submitLogin","id":1}"#);
    assert_eq!(a, b);
    assert_eq!(
        a,
        Ok(Some(Message::LoginWithWorker(ClientWithWorkerName {
            id: 1,
            method: "eth_submitLogin".to_string(),
            params: texts(&["0xAAA", "x"]),
            worker: "w1".to_string(),
        })))
    );
}

#[test]
fn requests_are_told_by_their_method() {
    assert_eq!(
        read_miner_line(br#"{"id":2,"method":"eth_submitWork","params":["n","h","m"],"worker":"w"}"#),
        Ok(Some(Message::Submit(Client {
            id: 2,
            method: "eth_submitWork".to_string(),
            params: texts(&["n", "h", "m"]),
        })))
    );
    assert_eq!(
        read_miner_line(br#"{"id":2,"method":"eth_getWork","params":[]}"#),
        Ok(Some(Message::GetWork(ClientGetWork {
            id: 2,
            method: "eth_getWork".to_string(),
            params: Vec::new(),
        })))
    );
    assert_eq!(read_miner_line(br#"{"id":2,"method":"eth_unknown","params":[]}"#), Ok(None));
    assert_eq!(read_miner_line(br#"{"id":2,"result":true}"#), Ok(None));
    assert_eq!(read_miner_line(b"[]"), Ok(None));
    assert_eq!(read_miner_line(b"{"), Err(ProtocolError::NotJson));
}

#[test]
fn pool_messages_are_told_by_their_members() {
    assert_eq!(
        read_pool_line(br#"{"id":4,"jsonrpc":"2.0","result":true}"#),
        Ok(Some(Message::Ack(Acknowledgement::Versioned(ServerId {
            id: 4,
            jsonrpc: "2.0".to_string(),
            result: true,
        }))))
    );
    assert_eq!(
        read_pool_line(br#"{"id":4,"result":true,"error":null}"#),
        Ok(Some(Message::Ack(Acknowledgement::Plain(ServerId1 { id: 4, result: true }))))
    );
    assert_eq!(
        read_pool_line(br#"{"id":0,"jsonrpc":"2.0","result":["a","b","c","00"],"height":13834471}"#),
        Ok(Some(Message::JobWithHeight(ServerJobsWithHeight {
            id: 0,
            result: texts(&["a", "b", "c", "00"]),
            jsonrpc: "2.0".to_string(),
            height: 13834471,
        })))
    );
    assert_eq!(
        read_pool_line(br#"{"id":0,"result":["a","b","c"],"height":1}"#),
        Ok(Some(Message::JobV1(Job::Plain(Server { id: 0, result: texts(&["a", "b", "c"]) }))))
    );
    assert_eq!(
        read_pool_line(br#"{"id":197,"result":false,"error":[21,"Job not found (=stale)",null]}"#),
        Ok(Some(Message::ErrTuple(ServerRootError {
            id: 197,
            result: false,
            error: (21, "Job not found (=stale)".to_string(), Json::Null),
        })))
    );
    assert_eq!(
        read_pool_line(br#"{"id":1,"result":null,"error":"down"}"#),
        Ok(Some(Message::ErrString(ServerRootErrorValue {
            id: 1,
            result: Json::Null,
            error: "down".to_string(),
        })))
    );
    assert_eq!(
        read_pool_line(br#"{"id":1,"result":false,"error":{"code":21,"message":"stale"}}"#),
        Ok(Some(Message::ErrObj(ServerError {
            id: 1,
            result: false,
            error: EthError { code: 21, message: "stale".to_string() },
        })))
    );
    assert_eq!(read_pool_line(br#"{"method":"mining.notify"}"#), Ok(None));
    assert_eq!(read_pool_line(b"nonsense"), Err(ProtocolError::NotJson));
}

#[test]
fn a_message_with_a_payload_that_cannot_be_written_is_refused() {
    let m = Message::ErrString(ServerRootErrorValue {
        id: 1,
        result: Json::Negative(3),
        error: "e".to_string(),
    });
    assert_eq!(write_line(&m), Err(ProtocolError::Malformed));
    let n = Message::ErrTuple(ServerRootError {
        id: 1,
        result: false,
        error: (1, "e".to_string(), Json::Object(vec![
            ("a".to_string(), Json::Null),
            ("a".to_string(), Json::Null),
        ])),
    });
    assert_eq!(write_line(&n), Err(ProtocolError::Malformed));
}

#[test]
fn an_acknowledgement_is_written_as_the_miner_expects_it() {
    let m = Message::Ack(Acknowledgement::Plain(ServerId1 { id: 2, result: true }));
    assert_eq!(write_line(&m).unwrap(), b"{\"id\":2,\"result\":true}\n".to_vec());
    let stale = Message::ErrObj(ServerError {
        id: 2,
        result: false,
        error: EthError { code: 21, message: "stale".to_string() },
    });
    let written = parse(&write_line(&stale).unwrap()).unwrap();
    let wanted = parse(br#"{"id":2,"result":false,"error":{"code":21,"message":"stale"}}"#).unwrap();
    assert_eq!(written, wanted);
}
