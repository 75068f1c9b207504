//! Every message of the protocol as one type, with one reader per direction.
//!
//! The shapes are tried in a fixed order and the first that fits wins;
//! because a shape ignores members it does not know, the shapes that ask for
//! more are tried first. A document that fits no shape is not an error: the
//! caller forwards it as it came.

use crate::protocol::codec::lemma_keys;
use crate::protocol::error::ProtocolError;
use crate::protocol::framing::SPLIT;
use crate::protocol::json::document;
use crate::protocol::json::lemma_object_lacks;
use crate::protocol::json::parse;
use crate::protocol::json::render;
use crate::protocol::json::rendering;
use crate::protocol::json::lemma_object_member;
use crate::protocol::json::Json;
use crate::protocol::json::JsonView;
use crate::protocol::rpc::eth::AckView;
use crate::protocol::rpc::eth::Client;
use crate::protocol::rpc::eth::ClientGetWork;
use crate::protocol::rpc::eth::ClientSubmitHashrate;
use crate::protocol::rpc::eth::ClientWithWorkerName;
use crate::protocol::rpc::eth::EthError;
use crate::protocol::rpc::eth::HeightJobView;
use crate::protocol::rpc::eth::JobView;
use crate::protocol::rpc::eth::LooseErrorView;
use crate::protocol::rpc::eth::NamedRequestView;
use crate::protocol::rpc::eth::ObjectErrorView;
use crate::protocol::rpc::eth::RequestView;
use crate::protocol::rpc::eth::Server;
use crate::protocol::rpc::eth::ServerError;
use crate::protocol::rpc::eth::ServerId;
use crate::protocol::rpc::eth::ServerId1;
use crate::protocol::rpc::eth::ServerJobsWithHeight;
use crate::protocol::rpc::eth::ServerRootError;
use crate::protocol::rpc::eth::ServerRootErrorValue;
use crate::protocol::rpc::eth::ServerSideJob;
use crate::protocol::rpc::eth::TupleErrorView;
use crate::protocol::rpc::eth::VersionedAckView;
use crate::protocol::rpc::eth::VersionedJobView;
use vstd::prelude::*;

verus! {

/// The method of a login.
pub open spec fn login_method() -> Seq<char> {
    "eth_submitLogin"@
}

/// The method of a share submission.
pub open spec fn submit_method() -> Seq<char> {
    "eth_submitWork"@
}

/// The method of a hashrate report.
pub open spec fn hashrate_method() -> Seq<char> {
    "eth_submitHashrate"@
}

/// The method of a request for work.
pub open spec fn get_work_method() -> Seq<char> {
    "eth_getWork"@
}

/// Whether `method` is one of the two names of a subscription.
pub open spec fn is_subscribe_method(method: Seq<char>) -> bool {
    method == "mining.subscribe"@ || method == "eth_subscribe"@
}

/// The six method names, by length: no two are equally long.
pub proof fn lemma_methods()
    ensures
        "eth_submitLogin"@.len() == 15,
        "eth_submitWork"@.len() == 14,
        "eth_submitHashrate"@.len() == 18,
        "eth_getWork"@.len() == 11,
        "mining.subscribe"@.len() == 16,
        "eth_subscribe"@.len() == 13,
{
    reveal_strlit("eth_submitLogin");
    reveal_strlit("eth_submitWork");
    reveal_strlit("eth_submitHashrate");
    reveal_strlit("eth_getWork");
    reveal_strlit("mining.subscribe");
    reveal_strlit("eth_subscribe");
}

/// A job without a height, with or without `jsonrpc`.
#[derive(Debug, Clone, PartialEq)]
pub enum Job {
    Plain(Server),
    Versioned(ServerSideJob),
}

/// An acknowledgement, with or without `jsonrpc`.
#[derive(Debug, Clone, PartialEq)]
pub enum Acknowledgement {
    Plain(ServerId1),
    Versioned(ServerId),
}

/// One message of the protocol.
#[derive(Debug, PartialEq)]
pub enum Message {
    /// `eth_submitLogin` without a `worker` field.
    Login(Client),
    /// `eth_submitLogin` with a `worker` field.
    LoginWithWorker(ClientWithWorkerName),
    /// `eth_submitWork`.
    Submit(Client),
    /// `eth_submitHashrate`.
    Hashrate(ClientSubmitHashrate),
    /// `eth_getWork`.
    GetWork(ClientGetWork),
    /// `mining.subscribe` or `eth_subscribe`.
    Subscribe(Client),
    /// A job notification without a height.
    JobV1(Job),
    /// A job notification with a height.
    JobWithHeight(ServerJobsWithHeight),
    /// An acknowledgement.
    Ack(Acknowledgement),
    /// An error in object form.
    ErrObj(ServerError),
    /// An error in tuple form.
    ErrTuple(ServerRootError),
    /// An error in string form.
    ErrString(ServerRootErrorValue),
}

/// The view of [`Job`].
pub enum PlainJobView {
    Plain(JobView),
    Versioned(VersionedJobView),
}

/// The view of [`Acknowledgement`].
pub enum AnyAckView {
    Plain(AckView),
    Versioned(VersionedAckView),
}

/// The view of [`Message`].
pub enum MessageView {
    Login(RequestView),
    LoginWithWorker(NamedRequestView),
    Submit(RequestView),
    Hashrate(RequestView),
    GetWork(RequestView),
    Subscribe(RequestView),
    JobV1(PlainJobView),
    JobWithHeight(HeightJobView),
    Ack(AnyAckView),
    ErrObj(ObjectErrorView),
    ErrTuple(TupleErrorView),
    ErrString(LooseErrorView),
}

impl View for Job {
    type V = PlainJobView;

    open spec fn view(&self) -> PlainJobView {
        match self {
            Job::Plain(j) => PlainJobView::Plain(j@),
            Job::Versioned(j) => PlainJobView::Versioned(j@),
        }
    }
}

impl View for Acknowledgement {
    type V = AnyAckView;

    open spec fn view(&self) -> AnyAckView {
        match self {
            Acknowledgement::Plain(a) => AnyAckView::Plain(a@),
            Acknowledgement::Versioned(a) => AnyAckView::Versioned(a@),
        }
    }
}

impl View for Message {
    type V = MessageView;

    open spec fn view(&self) -> MessageView {
        match self {
            Message::Login(m) => MessageView::Login(m@),
            Message::LoginWithWorker(m) => MessageView::LoginWithWorker(m@),
            Message::Submit(m) => MessageView::Submit(m@),
            Message::Hashrate(m) => MessageView::Hashrate(m@),
            Message::GetWork(m) => MessageView::GetWork(m@),
            Message::Subscribe(m) => MessageView::Subscribe(m@),
            Message::JobV1(m) => MessageView::JobV1(m@),
            Message::JobWithHeight(m) => MessageView::JobWithHeight(m@),
            Message::Ack(m) => MessageView::Ack(m@),
            Message::ErrObj(m) => MessageView::ErrObj(m@),
            Message::ErrTuple(m) => MessageView::ErrTuple(m@),
            Message::ErrString(m) => MessageView::ErrString(m@),
        }
    }
}

impl MessageView {
    /// Whether the message is one a miner sends.
    pub open spec fn from_miner(self) -> bool {
        self is Login || self is LoginWithWorker || self is Submit || self is Hashrate
            || self is GetWork || self is Subscribe
    }

    /// A request carries the method that its variant stands for.
    pub open spec fn wf(self) -> bool {
        match self {
            MessageView::Login(r) => r.method == login_method(),
            MessageView::LoginWithWorker(r) => r.method == login_method(),
            MessageView::Submit(r) => r.method == submit_method(),
            MessageView::Hashrate(r) => r.method == hashrate_method(),
            MessageView::GetWork(r) => r.method == get_work_method(),
            MessageView::Subscribe(r) => is_subscribe_method(r.method),
            _ => true,
        }
    }

    /// The message as a document.
    pub open spec fn encode(self) -> JsonView {
        match self {
            MessageView::Login(r) => r.encode(),
            MessageView::LoginWithWorker(r) => r.encode(),
            MessageView::Submit(r) => r.encode(),
            MessageView::Hashrate(r) => r.encode(),
            MessageView::GetWork(r) => r.encode(),
            MessageView::Subscribe(r) => r.encode(),
            MessageView::JobV1(PlainJobView::Plain(j)) => j.encode(),
            MessageView::JobV1(PlainJobView::Versioned(j)) => j.encode(),
            MessageView::JobWithHeight(j) => j.encode(),
            MessageView::Ack(AnyAckView::Plain(a)) => a.encode(),
            MessageView::Ack(AnyAckView::Versioned(a)) => a.encode(),
            MessageView::ErrObj(e) => e.encode(),
            MessageView::ErrTuple(e) => e.encode(),
            MessageView::ErrString(e) => e.encode(),
        }
    }

    /// The message of a miner that a document holds. A request is told by
    /// its method; a login names its worker if the document does.
    pub open spec fn decode_inbound(doc: JsonView) -> Option<MessageView> {
        match RequestView::decode(doc) {
            None => None,
            Some(r) => if r.method == login_method() {
                match NamedRequestView::decode(doc) {
                    Some(named) => Some(MessageView::LoginWithWorker(named)),
                    None => Some(MessageView::Login(r)),
                }
            } else if r.method == submit_method() {
                Some(MessageView::Submit(r))
            } else if r.method == hashrate_method() {
                Some(MessageView::Hashrate(r))
            } else if r.method == get_work_method() {
                Some(MessageView::GetWork(r))
            } else if is_subscribe_method(r.method) {
                Some(MessageView::Subscribe(r))
            } else {
                None
            },
        }
    }

    /// The message of a pool that a document holds: the first shape that
    /// fits, errors before jobs before acknowledgements, and within each the
    /// shape that asks for more first.
    pub open spec fn decode_outbound(doc: JsonView) -> Option<MessageView> {
        if let Some(e) = ObjectErrorView::decode(doc) {
            Some(MessageView::ErrObj(e))
        } else if let Some(e) = TupleErrorView::decode(doc) {
            Some(MessageView::ErrTuple(e))
        } else if let Some(e) = LooseErrorView::decode(doc) {
            Some(MessageView::ErrString(e))
        } else if let Some(j) = HeightJobView::decode(doc) {
            Some(MessageView::JobWithHeight(j))
        } else if let Some(j) = VersionedJobView::decode(doc) {
            Some(MessageView::JobV1(PlainJobView::Versioned(j)))
        } else if let Some(j) = JobView::decode(doc) {
            Some(MessageView::JobV1(PlainJobView::Plain(j)))
        } else if let Some(a) = VersionedAckView::decode(doc) {
            Some(MessageView::Ack(AnyAckView::Versioned(a)))
        } else if let Some(a) = AckView::decode(doc) {
            Some(MessageView::Ack(AnyAckView::Plain(a)))
        } else {
            None
        }
    }
}

/// Writing a miner's message and reading the document back gives the
/// message: the reader is a left inverse of the writer, whatever the order
/// in which a document's members are written.
pub proof fn lemma_inbound_round_trip(m: MessageView)
    requires
        m.wf(),
        m.from_miner(),
    ensures
        MessageView::decode_inbound(m.encode()) == Some(m),
{
    lemma_methods();
    match m {
        MessageView::Login(r) => {
            r.lemma_round_trip();
        },
        MessageView::LoginWithWorker(r) => {
            r.lemma_round_trip();
        },
        MessageView::Submit(r) => {
            r.lemma_round_trip();
        },
        MessageView::Hashrate(r) => {
            r.lemma_round_trip();
        },
        MessageView::GetWork(r) => {
            r.lemma_round_trip();
        },
        MessageView::Subscribe(r) => {
            r.lemma_round_trip();
        },
        _ => {},
    }
}

/// Writing a pool's message and reading the document back gives the
/// message.
pub proof fn lemma_outbound_round_trip(m: MessageView)
    requires
        !m.from_miner(),
    ensures
        MessageView::decode_outbound(m.encode()) == Some(m),
{
    lemma_keys();
    match m {
        MessageView::ErrObj(e) => {
            e.lemma_round_trip();
        },
        MessageView::ErrTuple(e) => {
            e.lemma_round_trip();
            let ns = seq!["id"@, "result"@, "error"@];
            let vs = seq![
                JsonView::of_i64(e.id),
                JsonView::Bool(e.result),
                crate::protocol::codec::triple_doc(e.error),
            ];
            lemma_object_member(ns, vs, "error"@, 2);
        },
        MessageView::ErrString(e) => {
            e.lemma_round_trip();
            let ns = seq!["id"@, "result"@, "error"@];
            let vs = seq![JsonView::of_i64(e.id), e.result, JsonView::Text(e.error)];
            lemma_object_member(ns, vs, "error"@, 2);
        },
        MessageView::JobWithHeight(j) => {
            j.lemma_round_trip();
            let ns = seq!["id"@, "result"@, "jsonrpc"@, "height"@];
            let vs = seq![
                JsonView::Unsigned(j.id),
                JsonView::of_texts(j.result),
                JsonView::Text(j.jsonrpc),
                JsonView::Unsigned(j.height),
            ];
            lemma_object_lacks(ns, vs, "error"@);
        },
        MessageView::JobV1(PlainJobView::Versioned(j)) => {
            j.lemma_round_trip();
            let ns = seq!["id"@, "jsonrpc"@, "result"@];
            let vs = seq![
                JsonView::Unsigned(j.id),
                JsonView::Text(j.jsonrpc),
                JsonView::of_texts(j.result),
            ];
            lemma_object_lacks(ns, vs, "error"@);
            lemma_object_lacks(ns, vs, "height"@);
        },
        MessageView::JobV1(PlainJobView::Plain(j)) => {
            j.lemma_round_trip();
            let ns = seq!["id"@, "result"@];
            let vs = seq![JsonView::Unsigned(j.id), JsonView::of_texts(j.result)];
            lemma_object_lacks(ns, vs, "error"@);
            lemma_object_lacks(ns, vs, "height"@);
            lemma_object_lacks(ns, vs, "jsonrpc"@);
        },
        MessageView::Ack(AnyAckView::Versioned(a)) => {
            a.lemma_round_trip();
            let ns = seq!["id"@, "jsonrpc"@, "result"@];
            let vs = seq![
                JsonView::Unsigned(a.id),
                JsonView::Text(a.jsonrpc),
                JsonView::Bool(a.result),
            ];
            lemma_object_lacks(ns, vs, "error"@);
            lemma_object_member(ns, vs, "result"@, 2);
        },
        MessageView::Ack(AnyAckView::Plain(a)) => {
            a.lemma_round_trip();
            let ns = seq!["id"@, "result"@];
            let vs = seq![JsonView::Unsigned(a.id), JsonView::Bool(a.result)];
            lemma_object_lacks(ns, vs, "error"@);
            lemma_object_lacks(ns, vs, "jsonrpc"@);
            lemma_object_member(ns, vs, "result"@, 1);
        },
        _ => {},
    }
}


/// A copy of a list of strings.
pub fn copy_list(texts: &Vec<String>) -> (out: Vec<String>)
    ensures
        out.deep_view() == texts.deep_view(),
{
    let mut out: Vec<String> = Vec::new();
    let mut i: usize = 0;
    while i < texts.len()
        invariant
            i <= texts@.len(),
            out@.len() == i,
            forall|k: int| 0 <= k < i ==> (#[trigger] out@[k])@ == texts@[k]@,
        decreases texts@.len() - i,
    {
        out.push(texts[i].clone());
        i = i + 1;
    }
    proof {
        assert(out.deep_view() =~= texts.deep_view());
    }
    out
}

/// Whether `s` is the text `lit`.
pub fn text_is(s: &String, lit: &str) -> (r: bool)
    ensures
        r == (s@ == lit@),
{
    let other = String::from_str(lit);
    *s == other
}

impl Message {
    /// Whatever the message carries beyond its own members is in written
    /// form, so that the message can be written out.
    pub open spec fn writable(&self) -> bool {
        match self {
            Message::ErrTuple(e) => e.error.2.wf(),
            Message::ErrString(e) => e.result.wf(),
            _ => true,
        }
    }

    /// Whether the message can be written out.
    pub fn is_writable(&self) -> (r: bool)
        ensures
            r == self.writable(),
    {
        match self {
            Message::ErrTuple(e) => e.error.2.well_formed(),
            Message::ErrString(e) => e.result.well_formed(),
            _ => true,
        }
    }

    /// A copy of the message.
    pub fn duplicate(&self) -> (r: Message)
        ensures
            r@ == self@,
            r.writable() == self.writable(),
    {
        match self {
            Message::Login(m) => Message::Login(
                Client { id: m.id, method: m.method.clone(), params: copy_list(&m.params) },
            ),
            Message::LoginWithWorker(m) => Message::LoginWithWorker(
                ClientWithWorkerName {
                    id: m.id,
                    method: m.method.clone(),
                    params: copy_list(&m.params),
                    worker: m.worker.clone(),
                },
            ),
            Message::Submit(m) => Message::Submit(
                Client { id: m.id, method: m.method.clone(), params: copy_list(&m.params) },
            ),
            Message::Hashrate(m) => Message::Hashrate(
                ClientSubmitHashrate {
                    id: m.id,
                    method: m.method.clone(),
                    params: copy_list(&m.params),
                },
            ),
            Message::GetWork(m) => Message::GetWork(
                ClientGetWork { id: m.id, method: m.method.clone(), params: copy_list(&m.params) },
            ),
            Message::Subscribe(m) => Message::Subscribe(
                Client { id: m.id, method: m.method.clone(), params: copy_list(&m.params) },
            ),
            Message::JobV1(Job::Plain(m)) => Message::JobV1(
                Job::Plain(Server { id: m.id, result: copy_list(&m.result) }),
            ),
            Message::JobV1(Job::Versioned(m)) => Message::JobV1(
                Job::Versioned(
                    ServerSideJob {
                        id: m.id,
                        jsonrpc: m.jsonrpc.clone(),
                        result: copy_list(&m.result),
                    },
                ),
            ),
            Message::JobWithHeight(m) => Message::JobWithHeight(
                ServerJobsWithHeight {
                    id: m.id,
                    result: copy_list(&m.result),
                    jsonrpc: m.jsonrpc.clone(),
                    height: m.height,
                },
            ),
            Message::Ack(Acknowledgement::Plain(m)) => Message::Ack(
                Acknowledgement::Plain(ServerId1 { id: m.id, result: m.result }),
            ),
            Message::Ack(Acknowledgement::Versioned(m)) => Message::Ack(
                Acknowledgement::Versioned(
                    ServerId { id: m.id, jsonrpc: m.jsonrpc.clone(), result: m.result },
                ),
            ),
            Message::ErrObj(m) => Message::ErrObj(
                ServerError {
                    id: m.id,
                    result: m.result,
                    error: EthError { code: m.error.code, message: m.error.message.clone() },
                },
            ),
            Message::ErrTuple(m) => Message::ErrTuple(
                ServerRootError {
                    id: m.id,
                    result: m.result,
                    error: (m.error.0, m.error.1.clone(), m.error.2.duplicate()),
                },
            ),
            Message::ErrString(m) => Message::ErrString(
                ServerRootErrorValue {
                    id: m.id,
                    result: m.result.duplicate(),
                    error: m.error.clone(),
                },
            ),
        }
    }

    /// Writes the message as a document.
    pub fn to_json(&self) -> (j: Json)
        ensures
            j@ == self@.encode(),
            j.wf() == self.writable(),
    {
        match self {
            Message::Login(m) => m.to_json(),
            Message::LoginWithWorker(m) => m.to_json(),
            Message::Submit(m) => m.to_json(),
            Message::Hashrate(m) => m.to_json(),
            Message::GetWork(m) => m.to_json(),
            Message::Subscribe(m) => m.to_json(),
            Message::JobV1(Job::Plain(m)) => m.to_json(),
            Message::JobV1(Job::Versioned(m)) => m.to_json(),
            Message::JobWithHeight(m) => m.to_json(),
            Message::Ack(Acknowledgement::Plain(m)) => m.to_json(),
            Message::Ack(Acknowledgement::Versioned(m)) => m.to_json(),
            Message::ErrObj(m) => m.to_json(),
            Message::ErrTuple(m) => m.to_json(),
            Message::ErrString(m) => m.to_json(),
        }
    }

    /// Reads a miner's message from a document; `None` for a document that
    /// is no request the proxy knows.
    pub fn from_miner(doc: &Json) -> (r: Option<Message>)
        ensures
            match r {
                Some(m) => MessageView::decode_inbound(doc@) == Some(m@) && m@.wf()
                    && m@.from_miner() && m.writable(),
                None => MessageView::decode_inbound(doc@) is None,
            },
    {
        let plain = match Client::from_json(doc) {
            Some(c) => c,
            None => return None,
        };
        if text_is(&plain.method, "eth_submitLogin") {
            match ClientWithWorkerName::from_json(doc) {
                Some(named) => Some(Message::LoginWithWorker(named)),
                None => Some(Message::Login(plain)),
            }
        } else if text_is(&plain.method, "eth_submitWork") {
            Some(Message::Submit(plain))
        } else if text_is(&plain.method, "eth_submitHashrate") {
            Some(
                Message::Hashrate(
                    ClientSubmitHashrate { id: plain.id, method: plain.method, params: plain.params },
                ),
            )
        } else if text_is(&plain.method, "eth_getWork") {
            Some(
                Message::GetWork(
                    ClientGetWork { id: plain.id, method: plain.method, params: plain.params },
                ),
            )
        } else if text_is(&plain.method, "mining.subscribe") || text_is(
            &plain.method,
            "eth_subscribe",
        ) {
            Some(Message::Subscribe(plain))
        } else {
            None
        }
    }

    /// Reads a pool's message from a document; `None` for a document that
    /// fits no shape.
    pub fn from_pool(doc: &Json) -> (r: Option<Message>)
        ensures
            match r {
                Some(m) => MessageView::decode_outbound(doc@) == Some(m@) && !m@.from_miner()
                    && (doc.wf() ==> m.writable()),
                None => MessageView::decode_outbound(doc@) is None,
            },
    {
        if let Some(e) = ServerError::from_json(doc) {
            return Some(Message::ErrObj(e));
        }
        if let Some(e) = ServerRootError::from_json(doc) {
            return Some(Message::ErrTuple(e));
        }
        if let Some(e) = ServerRootErrorValue::from_json(doc) {
            return Some(Message::ErrString(e));
        }
        if let Some(j) = ServerJobsWithHeight::from_json(doc) {
            return Some(Message::JobWithHeight(j));
        }
        if let Some(j) = ServerSideJob::from_json(doc) {
            return Some(Message::JobV1(Job::Versioned(j)));
        }
        if let Some(j) = Server::from_json(doc) {
            return Some(Message::JobV1(Job::Plain(j)));
        }
        if let Some(a) = ServerId::from_json(doc) {
            return Some(Message::Ack(Acknowledgement::Versioned(a)));
        }
        if let Some(a) = ServerId1::from_json(doc) {
            return Some(Message::Ack(Acknowledgement::Plain(a)));
        }
        None
    }
}


/// The line a message is sent as, given whether the message can be written
/// and what the writer makes of its document: the text and a newline.
pub open spec fn line_of(writable: bool, written: Option<Seq<u8>>) -> Result<Seq<u8>, ProtocolError> {
    if !writable {
        Err(ProtocolError::Malformed)
    } else {
        match written {
            Some(text) => Ok(text.push(SPLIT)),
            None => Err(ProtocolError::Unwritable),
        }
    }
}

/// Writes a message as one line, newline included.
pub fn write_line(message: &Message) -> (r: Result<Vec<u8>, ProtocolError>)
    ensures
        match r {
            Ok(line) => line_of(message.writable(), rendering(message@.encode())) == Ok::<
                Seq<u8>,
                ProtocolError,
            >(line@),
            Err(e) => line_of(message.writable(), rendering(message@.encode())) == Err::<
                Seq<u8>,
                ProtocolError,
            >(e),
        },
{
    let doc = message.to_json();
    match render(&doc) {
        Ok(mut text) => {
            text.push(SPLIT);
            Ok(text)
        },
        Err(e) => Err(e),
    }
}

/// Reads one line of a miner: the request it holds, or `None` for a
/// document that is no request the proxy knows. A line that is no JSON is
/// an error.
pub fn read_miner_line(line: &[u8]) -> (r: Result<Option<Message>, ProtocolError>)
    ensures
        match document(line@) {
            None => r == Err::<Option<Message>, ProtocolError>(ProtocolError::NotJson),
            Some(doc) => r is Ok && match r.unwrap() {
                Some(m) => MessageView::decode_inbound(doc) == Some(m@),
                None => MessageView::decode_inbound(doc) is None,
            },
        },
{
    match parse(line) {
        Ok(doc) => Ok(Message::from_miner(&doc)),
        Err(e) => Err(e),
    }
}

/// Reads one line of a pool: the message it holds, or `None` for a
/// document that fits no shape. A line that is no JSON is an error.
pub fn read_pool_line(line: &[u8]) -> (r: Result<Option<Message>, ProtocolError>)
    ensures
        match document(line@) {
            None => r == Err::<Option<Message>, ProtocolError>(ProtocolError::NotJson),
            Some(doc) => r is Ok && match r.unwrap() {
                Some(m) => MessageView::decode_outbound(doc) == Some(m@),
                None => MessageView::decode_outbound(doc) is None,
            },
        },
{
    match parse(line) {
        Ok(doc) => Ok(Message::from_pool(&doc)),
        Err(e) => Err(e),
    }
}

impl Clone for Message {
    fn clone(&self) -> (r: Message)
        ensures
            r@ == self@,
            r.writable() == self.writable(),
    {
        self.duplicate()
    }
}

} // verus!
