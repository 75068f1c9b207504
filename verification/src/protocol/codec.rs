//! Between JSON documents and the message shapes.
//!
//! A shape is recognised by the members it requires, each of the right type;
//! members it does not know are ignored. Writing a shape and reading the
//! document back gives the shape again.

use crate::protocol::json::distinct;
use crate::protocol::json::lemma_object_lacks;
use crate::protocol::json::lemma_object_member;
use crate::protocol::json::lemma_object_view;
use crate::protocol::json::values;
use crate::protocol::json::lemma_texts_round_trip;
use crate::protocol::json::names;
use crate::protocol::json::object_of;
use crate::protocol::json::Json;
use crate::protocol::json::JsonView;
use crate::protocol::rpc::eth::Client;
use crate::protocol::rpc::eth::ClientGetWork;
use crate::protocol::rpc::eth::ClientSubmitHashrate;
use crate::protocol::rpc::eth::ClientWithWorkerName;
use crate::protocol::json::lemma_array_view;
use crate::protocol::json::lemma_i64_round_trip;
use crate::protocol::rpc::eth::AckView;
use crate::protocol::rpc::eth::EthError;
use crate::protocol::rpc::eth::EthErrorView;
use crate::protocol::rpc::eth::HeightJobView;
use crate::protocol::rpc::eth::JobView;
use crate::protocol::rpc::eth::LooseErrorView;
use crate::protocol::rpc::eth::NamedRequestView;
use crate::protocol::rpc::eth::ObjectErrorView;
use crate::protocol::rpc::eth::RequestView;
use crate::protocol::rpc::eth::Server;
use crate::protocol::rpc::eth::ServerError;
use crate::protocol::rpc::eth::ServerId;
use crate::protocol::rpc::eth::ServerId1;
use crate::protocol::rpc::eth::ServerJobsWithHeight;
use crate::protocol::rpc::eth::ServerRoot;
use crate::protocol::rpc::eth::ServerRootError;
use crate::protocol::rpc::eth::ServerRootErrorValue;
use crate::protocol::rpc::eth::ServerSideJob;
use crate::protocol::rpc::eth::TextErrorView;
use crate::protocol::rpc::eth::TupleErrorView;
use crate::protocol::rpc::eth::VersionedAckView;
use crate::protocol::rpc::eth::VersionedJobView;
use vstd::prelude::*;

verus! {

/// The member `key` of `doc` as an unsigned integer.
pub open spec fn u64_at(doc: JsonView, key: Seq<char>) -> Option<u64> {
    match doc.member(key) {
        Some(v) => v.as_u64(),
        None => None,
    }
}

/// The member `key` of `doc` as a signed integer.
pub open spec fn i64_at(doc: JsonView, key: Seq<char>) -> Option<i64> {
    match doc.member(key) {
        Some(v) => v.as_i64(),
        None => None,
    }
}

/// The member `key` of `doc` as a boolean.
pub open spec fn bool_at(doc: JsonView, key: Seq<char>) -> Option<bool> {
    match doc.member(key) {
        Some(v) => v.as_bool(),
        None => None,
    }
}

/// The member `key` of `doc` as a string.
pub open spec fn text_at(doc: JsonView, key: Seq<char>) -> Option<Seq<char>> {
    match doc.member(key) {
        Some(v) => v.as_text(),
        None => None,
    }
}

/// The member `key` of `doc` as an array of strings.
pub open spec fn texts_at(doc: JsonView, key: Seq<char>) -> Option<Seq<Seq<char>>> {
    match doc.member(key) {
        Some(v) => v.as_texts(),
        None => None,
    }
}

/// Reads the member `key` of `doc` as an unsigned integer.
pub fn read_u64(doc: &Json, key: &str) -> (r: Option<u64>)
    ensures
        r == u64_at(doc@, key@),
{
    match doc.member(key) {
        Some(v) => v.as_u64(),
        None => None,
    }
}

/// Reads the member `key` of `doc` as a signed integer.
pub fn read_i64(doc: &Json, key: &str) -> (r: Option<i64>)
    ensures
        r == i64_at(doc@, key@),
{
    match doc.member(key) {
        Some(v) => v.as_i64(),
        None => None,
    }
}

/// Reads the member `key` of `doc` as a boolean.
pub fn read_bool(doc: &Json, key: &str) -> (r: Option<bool>)
    ensures
        r == bool_at(doc@, key@),
{
    match doc.member(key) {
        Some(v) => v.as_bool(),
        None => None,
    }
}

/// Reads the member `key` of `doc` as a string.
pub fn read_text(doc: &Json, key: &str) -> (r: Option<String>)
    ensures
        match r {
            Some(s) => text_at(doc@, key@) == Some(s@),
            None => text_at(doc@, key@) is None,
        },
{
    match doc.member(key) {
        Some(v) => v.as_text(),
        None => None,
    }
}

/// Reads the member `key` of `doc` as an array of strings.
pub fn read_texts(doc: &Json, key: &str) -> (r: Option<Vec<String>>)
    ensures
        match r {
            Some(v) => texts_at(doc@, key@) == Some(v.deep_view()),
            None => texts_at(doc@, key@) is None,
        },
{
    match doc.member(key) {
        Some(v) => v.as_texts(),
        None => None,
    }
}

/// The object with the given members.
pub fn object(fields: Vec<(String, Json)>) -> (j: Json)
    ensures
        j@ == object_of(names(fields@), values(fields@)),
        j.wf() == (distinct(names(fields@)) && forall|i: int|
            0 <= i < fields@.len() ==> (#[trigger] fields@[i]).1.wf()),
{
    let j = Json::Object(fields);
    proof {
        lemma_object_view(j);
    }
    j
}

/// The member names of the protocol, by length and first letter: enough to
/// tell any two of them apart.
pub proof fn lemma_keys()
    ensures
        "id"@.len() == 2,
        "code"@.len() == 4,
        "error"@.len() == 5,
        "method"@.len() == 6 && "method"@[0] == 'm',
        "params"@.len() == 6 && "params"@[0] == 'p',
        "worker"@.len() == 6 && "worker"@[0] == 'w',
        "result"@.len() == 6 && "result"@[0] == 'r',
        "height"@.len() == 6 && "height"@[0] == 'h',
        "jsonrpc"@.len() == 7 && "jsonrpc"@[0] == 'j',
        "message"@.len() == 7 && "message"@[0] == 'm',
{
    reveal_strlit("id");
    reveal_strlit("method");
    reveal_strlit("params");
    reveal_strlit("worker");
    reveal_strlit("jsonrpc");
    reveal_strlit("result");
    reveal_strlit("error");
    reveal_strlit("height");
    reveal_strlit("code");
    reveal_strlit("message");
}

impl RequestView {
    /// The request as a document.
    pub open spec fn encode(self) -> JsonView {
        object_of(
            seq!["id"@, "method"@, "params"@],
            seq![
                JsonView::Unsigned(self.id),
                JsonView::Text(self.method),
                JsonView::of_texts(self.params),
            ],
        )
    }

    /// The request that a document holds, if it has the three members.
    pub open spec fn decode(doc: JsonView) -> Option<RequestView> {
        match (u64_at(doc, "id"@), text_at(doc, "method"@), texts_at(doc, "params"@)) {
            (Some(id), Some(method), Some(params)) => Some(RequestView { id, method, params }),
            _ => None,
        }
    }

    /// Reading a written request gives the request, and no worker.
    pub proof fn lemma_round_trip(self)
        ensures
            RequestView::decode(self.encode()) == Some(self),
            text_at(self.encode(), "worker"@) is None,
    {
        lemma_keys();
        let ns = seq!["id"@, "method"@, "params"@];
        let vs = seq![
            JsonView::Unsigned(self.id),
            JsonView::Text(self.method),
            JsonView::of_texts(self.params),
        ];
        lemma_object_member(ns, vs, "id"@, 0);
        lemma_object_member(ns, vs, "method"@, 1);
        lemma_object_member(ns, vs, "params"@, 2);
        lemma_object_lacks(ns, vs, "worker"@);
        lemma_texts_round_trip(self.params);
    }
}

fn request_parts(doc: &Json) -> (r: Option<(u64, String, Vec<String>)>)
    ensures
        match r {
            Some(p) => RequestView::decode(doc@) == Some(
                RequestView { id: p.0, method: p.1@, params: p.2.deep_view() },
            ),
            None => RequestView::decode(doc@) is None,
        },
{
    let id = match read_u64(doc, "id") {
        Some(id) => id,
        None => return None,
    };
    let method = match read_text(doc, "method") {
        Some(m) => m,
        None => return None,
    };
    let params = match read_texts(doc, "params") {
        Some(p) => p,
        None => return None,
    };
    Some((id, method, params))
}

fn request_document(id: u64, method: &String, params: &Vec<String>) -> (j: Json)
    ensures
        j@ == (RequestView { id, method: method@, params: params.deep_view() }).encode(),
        j.wf(),
{
    let mut fields: Vec<(String, Json)> = Vec::new();
    fields.push((String::from_str("id"), Json::Unsigned(id)));
    fields.push((String::from_str("method"), Json::Text(method.clone())));
    fields.push((String::from_str("params"), Json::of_texts(params)));
    proof {
        lemma_keys();
        assert(names(fields@) =~= seq!["id"@, "method"@, "params"@]);
        assert(values(fields@) =~= seq![
            JsonView::Unsigned(id),
            JsonView::Text(method@),
            JsonView::of_texts(params.deep_view()),
        ]);
    }
    object(fields)
}

impl Client {
    /// Reads a request from a document.
    pub fn from_json(doc: &Json) -> (r: Option<Client>)
        ensures
            match r {
                Some(c) => RequestView::decode(doc@) == Some(c@),
                None => RequestView::decode(doc@) is None,
            },
    {
        match request_parts(doc) {
            Some((id, method, params)) => Some(Client { id, method, params }),
            None => None,
        }
    }

    /// Writes the request as a document.
    pub fn to_json(&self) -> (j: Json)
        ensures
            j@ == self@.encode(),
            j.wf(),
    {
        request_document(self.id, &self.method, &self.params)
    }
}


impl ClientGetWork {
    /// Reads a request from a document.
    pub fn from_json(doc: &Json) -> (r: Option<ClientGetWork>)
        ensures
            match r {
                Some(c) => RequestView::decode(doc@) == Some(c@),
                None => RequestView::decode(doc@) is None,
            },
    {
        match request_parts(doc) {
            Some((id, method, params)) => Some(ClientGetWork { id, method, params }),
            None => None,
        }
    }

    /// Writes the request as a document.
    pub fn to_json(&self) -> (j: Json)
        ensures
            j@ == self@.encode(),
            j.wf(),
    {
        request_document(self.id, &self.method, &self.params)
    }
}

impl ClientSubmitHashrate {
    /// Reads a request from a document.
    pub fn from_json(doc: &Json) -> (r: Option<ClientSubmitHashrate>)
        ensures
            match r {
                Some(c) => RequestView::decode(doc@) == Some(c@),
                None => RequestView::decode(doc@) is None,
            },
    {
        match request_parts(doc) {
            Some((id, method, params)) => Some(ClientSubmitHashrate { id, method, params }),
            None => None,
        }
    }

    /// Writes the request as a document.
    pub fn to_json(&self) -> (j: Json)
        ensures
            j@ == self@.encode(),
            j.wf(),
    {
        request_document(self.id, &self.method, &self.params)
    }
}

impl NamedRequestView {
    /// The request without its worker.
    pub open spec fn request(self) -> RequestView {
        RequestView { id: self.id, method: self.method, params: self.params }
    }

    /// The request as a document.
    pub open spec fn encode(self) -> JsonView {
        object_of(
            seq!["id"@, "method"@, "params"@, "worker"@],
            seq![
                JsonView::Unsigned(self.id),
                JsonView::Text(self.method),
                JsonView::of_texts(self.params),
                JsonView::Text(self.worker),
            ],
        )
    }

    /// The request that a document holds, if it has the four members.
    pub open spec fn decode(doc: JsonView) -> Option<NamedRequestView> {
        match (RequestView::decode(doc), text_at(doc, "worker"@)) {
            (Some(r), Some(worker)) => Some(
                NamedRequestView { id: r.id, method: r.method, params: r.params, worker },
            ),
            _ => None,
        }
    }

    /// Reading a written request gives the request.
    pub proof fn lemma_round_trip(self)
        ensures
            NamedRequestView::decode(self.encode()) == Some(self),
            RequestView::decode(self.encode()) == Some(self.request()),
    {
        lemma_keys();
        let ns = seq!["id"@, "method"@, "params"@, "worker"@];
        let vs = seq![
            JsonView::Unsigned(self.id),
            JsonView::Text(self.method),
            JsonView::of_texts(self.params),
            JsonView::Text(self.worker),
        ];
        lemma_object_member(ns, vs, "id"@, 0);
        lemma_object_member(ns, vs, "method"@, 1);
        lemma_object_member(ns, vs, "params"@, 2);
        lemma_object_member(ns, vs, "worker"@, 3);
        lemma_texts_round_trip(self.params);
    }
}

impl ClientWithWorkerName {
    /// Reads a request from a document.
    pub fn from_json(doc: &Json) -> (r: Option<ClientWithWorkerName>)
        ensures
            match r {
                Some(c) => NamedRequestView::decode(doc@) == Some(c@),
                None => NamedRequestView::decode(doc@) is None,
            },
    {
        let (id, method, params) = match request_parts(doc) {
            Some(p) => p,
            None => return None,
        };
        let worker = match read_text(doc, "worker") {
            Some(w) => w,
            None => return None,
        };
        Some(ClientWithWorkerName { id, method, params, worker })
    }

    /// Writes the request as a document.
    pub fn to_json(&self) -> (j: Json)
        ensures
            j@ == self@.encode(),
            j.wf(),
    {
        let mut fields: Vec<(String, Json)> = Vec::new();
        fields.push((String::from_str("id"), Json::Unsigned(self.id)));
        fields.push((String::from_str("method"), Json::Text(self.method.clone())));
        fields.push((String::from_str("params"), Json::of_texts(&self.params)));
        fields.push((String::from_str("worker"), Json::Text(self.worker.clone())));
        proof {
            lemma_keys();
            assert(names(fields@) =~= seq!["id"@, "method"@, "params"@, "worker"@]);
            assert(values(fields@) =~= seq![
                JsonView::Unsigned(self.id),
                JsonView::Text(self.method@),
                JsonView::of_texts(self.params.deep_view()),
                JsonView::Text(self.worker@),
            ]);
        }
        object(fields)
    }
}

impl VersionedJobView {
    /// The job as a document.
    pub open spec fn encode(self) -> JsonView {
        object_of(
            seq!["id"@, "jsonrpc"@, "result"@],
            seq![
                JsonView::Unsigned(self.id),
                JsonView::Text(self.jsonrpc),
                JsonView::of_texts(self.result),
            ],
        )
    }

    /// The job that a document holds, if it has the three members.
    pub open spec fn decode(doc: JsonView) -> Option<VersionedJobView> {
        match (u64_at(doc, "id"@), text_at(doc, "jsonrpc"@), texts_at(doc, "result"@)) {
            (Some(id), Some(jsonrpc), Some(result)) => Some(
                VersionedJobView { id, jsonrpc, result },
            ),
            _ => None,
        }
    }

    /// Reading a written job gives the job.
    pub proof fn lemma_round_trip(self)
        ensures
            VersionedJobView::decode(self.encode()) == Some(self),
    {
        lemma_keys();
        let ns = seq!["id"@, "jsonrpc"@, "result"@];
        let vs = seq![
            JsonView::Unsigned(self.id),
            JsonView::Text(self.jsonrpc),
            JsonView::of_texts(self.result),
        ];
        lemma_object_member(ns, vs, "id"@, 0);
        lemma_object_member(ns, vs, "jsonrpc"@, 1);
        lemma_object_member(ns, vs, "result"@, 2);
        lemma_texts_round_trip(self.result);
    }
}

impl ServerSideJob {
    /// Reads a job from a document.
    pub fn from_json(doc: &Json) -> (r: Option<ServerSideJob>)
        ensures
            match r {
                Some(c) => VersionedJobView::decode(doc@) == Some(c@),
                None => VersionedJobView::decode(doc@) is None,
            },
    {
        let id = match read_u64(doc, "id") {
            Some(id) => id,
            None => return None,
        };
        let jsonrpc = match read_text(doc, "jsonrpc") {
            Some(v) => v,
            None => return None,
        };
        let result = match read_texts(doc, "result") {
            Some(v) => v,
            None => return None,
        };
        Some(ServerSideJob { id, jsonrpc, result })
    }

    /// Writes the job as a document.
    pub fn to_json(&self) -> (j: Json)
        ensures
            j@ == self@.encode(),
            j.wf(),
    {
        let mut fields: Vec<(String, Json)> = Vec::new();
        fields.push((String::from_str("id"), Json::Unsigned(self.id)));
        fields.push((String::from_str("jsonrpc"), Json::Text(self.jsonrpc.clone())));
        fields.push((String::from_str("result"), Json::of_texts(&self.result)));
        proof {
            lemma_keys();
            assert(names(fields@) =~= seq!["id"@, "jsonrpc"@, "result"@]);
            assert(values(fields@) =~= seq![
                JsonView::Unsigned(self.id),
                JsonView::Text(self.jsonrpc@),
                JsonView::of_texts(self.result.deep_view()),
            ]);
        }
        object(fields)
    }
}

impl JobView {
    /// The job as a document.
    pub open spec fn encode(self) -> JsonView {
        object_of(
            seq!["id"@, "result"@],
            seq![JsonView::Unsigned(self.id), JsonView::of_texts(self.result)],
        )
    }

    /// The job that a document holds, if it has the two members.
    pub open spec fn decode(doc: JsonView) -> Option<JobView> {
        match (u64_at(doc, "id"@), texts_at(doc, "result"@)) {
            (Some(id), Some(result)) => Some(JobView { id, result }),
            _ => None,
        }
    }

    /// Reading a written job gives the job.
    pub proof fn lemma_round_trip(self)
        ensures
            JobView::decode(self.encode()) == Some(self),
    {
        lemma_keys();
        let ns = seq!["id"@, "result"@];
        let vs = seq![JsonView::Unsigned(self.id), JsonView::of_texts(self.result)];
        lemma_object_member(ns, vs, "id"@, 0);
        lemma_object_member(ns, vs, "result"@, 1);
        lemma_texts_round_trip(self.result);
    }
}

impl Server {
    /// Reads a job from a document.
    pub fn from_json(doc: &Json) -> (r: Option<Server>)
        ensures
            match r {
                Some(c) => JobView::decode(doc@) == Some(c@),
                None => JobView::decode(doc@) is None,
            },
    {
        let id = match read_u64(doc, "id") {
            Some(id) => id,
            None => return None,
        };
        let result = match read_texts(doc, "result") {
            Some(v) => v,
            None => return None,
        };
        Some(Server { id, result })
    }

    /// Writes the job as a document.
    pub fn to_json(&self) -> (j: Json)
        ensures
            j@ == self@.encode(),
            j.wf(),
    {
        let mut fields: Vec<(String, Json)> = Vec::new();
        fields.push((String::from_str("id"), Json::Unsigned(self.id)));
        fields.push((String::from_str("result"), Json::of_texts(&self.result)));
        proof {
            lemma_keys();
            assert(names(fields@) =~= seq!["id"@, "result"@]);
            assert(values(fields@) =~= seq![
                JsonView::Unsigned(self.id),
                JsonView::of_texts(self.result.deep_view()),
            ]);
        }
        object(fields)
    }
}

impl HeightJobView {
    /// The job as a document.
    pub open spec fn encode(self) -> JsonView {
        object_of(
            seq!["id"@, "result"@, "jsonrpc"@, "height"@],
            seq![
                JsonView::Unsigned(self.id),
                JsonView::of_texts(self.result),
                JsonView::Text(self.jsonrpc),
                JsonView::Unsigned(self.height),
            ],
        )
    }

    /// The job that a document holds, if it has the four members.
    pub open spec fn decode(doc: JsonView) -> Option<HeightJobView> {
        match (
            u64_at(doc, "id"@),
            texts_at(doc, "result"@),
            text_at(doc, "jsonrpc"@),
            u64_at(doc, "height"@),
        ) {
            (Some(id), Some(result), Some(jsonrpc), Some(height)) => Some(
                HeightJobView { id, result, jsonrpc, height },
            ),
            _ => None,
        }
    }

    /// Reading a written job gives the job.
    pub proof fn lemma_round_trip(self)
        ensures
            HeightJobView::decode(self.encode()) == Some(self),
    {
        lemma_keys();
        let ns = seq!["id"@, "result"@, "jsonrpc"@, "height"@];
        let vs = seq![
            JsonView::Unsigned(self.id),
            JsonView::of_texts(self.result),
            JsonView::Text(self.jsonrpc),
            JsonView::Unsigned(self.height),
        ];
        lemma_object_member(ns, vs, "id"@, 0);
        lemma_object_member(ns, vs, "result"@, 1);
        lemma_object_member(ns, vs, "jsonrpc"@, 2);
        lemma_object_member(ns, vs, "height"@, 3);
        lemma_texts_round_trip(self.result);
    }
}

impl ServerJobsWithHeight {
    /// Reads a job from a document.
    pub fn from_json(doc: &Json) -> (r: Option<ServerJobsWithHeight>)
        ensures
            match r {
                Some(c) => HeightJobView::decode(doc@) == Some(c@),
                None => HeightJobView::decode(doc@) is None,
            },
    {
        let id = match read_u64(doc, "id") {
            Some(id) => id,
            None => return None,
        };
        let result = match read_texts(doc, "result") {
            Some(v) => v,
            None => return None,
        };
        let jsonrpc = match read_text(doc, "jsonrpc") {
            Some(v) => v,
            None => return None,
        };
        let height = match read_u64(doc, "height") {
            Some(v) => v,
            None => return None,
        };
        Some(ServerJobsWithHeight { id, result, jsonrpc, height })
    }

    /// Writes the job as a document.
    pub fn to_json(&self) -> (j: Json)
        ensures
            j@ == self@.encode(),
            j.wf(),
    {
        let mut fields: Vec<(String, Json)> = Vec::new();
        fields.push((String::from_str("id"), Json::Unsigned(self.id)));
        fields.push((String::from_str("result"), Json::of_texts(&self.result)));
        fields.push((String::from_str("jsonrpc"), Json::Text(self.jsonrpc.clone())));
        fields.push((String::from_str("height"), Json::Unsigned(self.height)));
        proof {
            lemma_keys();
            assert(names(fields@) =~= seq!["id"@, "result"@, "jsonrpc"@, "height"@]);
            assert(values(fields@) =~= seq![
                JsonView::Unsigned(self.id),
                JsonView::of_texts(self.result.deep_view()),
                JsonView::Text(self.jsonrpc@),
                JsonView::Unsigned(self.height),
            ]);
        }
        object(fields)
    }
}

impl AckView {
    /// The acknowledgement as a document.
    pub open spec fn encode(self) -> JsonView {
        object_of(
            seq!["id"@, "result"@],
            seq![JsonView::Unsigned(self.id), JsonView::Bool(self.result)],
        )
    }

    /// The acknowledgement that a document holds, if it has the two members.
    pub open spec fn decode(doc: JsonView) -> Option<AckView> {
        match (u64_at(doc, "id"@), bool_at(doc, "result"@)) {
            (Some(id), Some(result)) => Some(AckView { id, result }),
            _ => None,
        }
    }

    /// Reading a written acknowledgement gives the acknowledgement.
    pub proof fn lemma_round_trip(self)
        ensures
            AckView::decode(self.encode()) == Some(self),
    {
        lemma_keys();
        let ns = seq!["id"@, "result"@];
        let vs = seq![JsonView::Unsigned(self.id), JsonView::Bool(self.result)];
        lemma_object_member(ns, vs, "id"@, 0);
        lemma_object_member(ns, vs, "result"@, 1);
    }
}

impl ServerId1 {
    /// Reads an acknowledgement from a document.
    pub fn from_json(doc: &Json) -> (r: Option<ServerId1>)
        ensures
            match r {
                Some(c) => AckView::decode(doc@) == Some(c@),
                None => AckView::decode(doc@) is None,
            },
    {
        let id = match read_u64(doc, "id") {
            Some(id) => id,
            None => return None,
        };
        let result = match read_bool(doc, "result") {
            Some(v) => v,
            None => return None,
        };
        Some(ServerId1 { id, result })
    }

    /// Writes the acknowledgement as a document.
    pub fn to_json(&self) -> (j: Json)
        ensures
            j@ == self@.encode(),
            j.wf(),
    {
        let mut fields: Vec<(String, Json)> = Vec::new();
        fields.push((String::from_str("id"), Json::Unsigned(self.id)));
        fields.push((String::from_str("result"), Json::Bool(self.result)));
        proof {
            lemma_keys();
            assert(names(fields@) =~= seq!["id"@, "result"@]);
            assert(values(fields@) =~= seq![
                JsonView::Unsigned(self.id),
                JsonView::Bool(self.result),
            ]);
        }
        object(fields)
    }
}

impl VersionedAckView {
    /// The acknowledgement as a document.
    pub open spec fn encode(self) -> JsonView {
        object_of(
            seq!["id"@, "jsonrpc"@, "result"@],
            seq![
                JsonView::Unsigned(self.id),
                JsonView::Text(self.jsonrpc),
                JsonView::Bool(self.result),
            ],
        )
    }

    /// The acknowledgement that a document holds, if it has the three
    /// members.
    pub open spec fn decode(doc: JsonView) -> Option<VersionedAckView> {
        match (u64_at(doc, "id"@), text_at(doc, "jsonrpc"@), bool_at(doc, "result"@)) {
            (Some(id), Some(jsonrpc), Some(result)) => Some(
                VersionedAckView { id, jsonrpc, result },
            ),
            _ => None,
        }
    }

    /// Reading a written acknowledgement gives the acknowledgement.
    pub proof fn lemma_round_trip(self)
        ensures
            VersionedAckView::decode(self.encode()) == Some(self),
    {
        lemma_keys();
        let ns = seq!["id"@, "jsonrpc"@, "result"@];
        let vs = seq![
            JsonView::Unsigned(self.id),
            JsonView::Text(self.jsonrpc),
            JsonView::Bool(self.result),
        ];
        lemma_object_member(ns, vs, "id"@, 0);
        lemma_object_member(ns, vs, "jsonrpc"@, 1);
        lemma_object_member(ns, vs, "result"@, 2);
    }
}

impl ServerId {
    /// Reads an acknowledgement from a document.
    pub fn from_json(doc: &Json) -> (r: Option<ServerId>)
        ensures
            match r {
                Some(c) => VersionedAckView::decode(doc@) == Some(c@),
                None => VersionedAckView::decode(doc@) is None,
            },
    {
        let id = match read_u64(doc, "id") {
            Some(id) => id,
            None => return None,
        };
        let jsonrpc = match read_text(doc, "jsonrpc") {
            Some(v) => v,
            None => return None,
        };
        let result = match read_bool(doc, "result") {
            Some(v) => v,
            None => return None,
        };
        Some(ServerId { id, jsonrpc, result })
    }

    /// Writes the acknowledgement as a document.
    pub fn to_json(&self) -> (j: Json)
        ensures
            j@ == self@.encode(),
            j.wf(),
    {
        let mut fields: Vec<(String, Json)> = Vec::new();
        fields.push((String::from_str("id"), Json::Unsigned(self.id)));
        fields.push((String::from_str("jsonrpc"), Json::Text(self.jsonrpc.clone())));
        fields.push((String::from_str("result"), Json::Bool(self.result)));
        proof {
            lemma_keys();
            assert(names(fields@) =~= seq!["id"@, "jsonrpc"@, "result"@]);
            assert(values(fields@) =~= seq![
                JsonView::Unsigned(self.id),
                JsonView::Text(self.jsonrpc@),
                JsonView::Bool(self.result),
            ]);
        }
        object(fields)
    }
}

impl TextErrorView {
    /// The answer as a document.
    pub open spec fn encode(self) -> JsonView {
        object_of(
            seq!["id"@, "result"@, "error"@],
            seq![
                JsonView::Unsigned(self.id),
                JsonView::Bool(self.result),
                JsonView::Text(self.error),
            ],
        )
    }

    /// The answer that a document holds, if it has the three members.
    pub open spec fn decode(doc: JsonView) -> Option<TextErrorView> {
        match (u64_at(doc, "id"@), bool_at(doc, "result"@), text_at(doc, "error"@)) {
            (Some(id), Some(result), Some(error)) => Some(TextErrorView { id, result, error }),
            _ => None,
        }
    }

    /// Reading a written answer gives the answer.
    pub proof fn lemma_round_trip(self)
        ensures
            TextErrorView::decode(self.encode()) == Some(self),
    {
        lemma_keys();
        let ns = seq!["id"@, "result"@, "error"@];
        let vs = seq![
            JsonView::Unsigned(self.id),
            JsonView::Bool(self.result),
            JsonView::Text(self.error),
        ];
        lemma_object_member(ns, vs, "id"@, 0);
        lemma_object_member(ns, vs, "result"@, 1);
        lemma_object_member(ns, vs, "error"@, 2);
    }
}

impl ServerRoot {
    /// Reads an answer from a document.
    pub fn from_json(doc: &Json) -> (r: Option<ServerRoot>)
        ensures
            match r {
                Some(c) => TextErrorView::decode(doc@) == Some(c@),
                None => TextErrorView::decode(doc@) is None,
            },
    {
        let id = match read_u64(doc, "id") {
            Some(id) => id,
            None => return None,
        };
        let result = match read_bool(doc, "result") {
            Some(v) => v,
            None => return None,
        };
        let error = match read_text(doc, "error") {
            Some(v) => v,
            None => return None,
        };
        Some(ServerRoot { id, result, error })
    }

    /// Writes the answer as a document.
    pub fn to_json(&self) -> (j: Json)
        ensures
            j@ == self@.encode(),
            j.wf(),
    {
        let mut fields: Vec<(String, Json)> = Vec::new();
        fields.push((String::from_str("id"), Json::Unsigned(self.id)));
        fields.push((String::from_str("result"), Json::Bool(self.result)));
        fields.push((String::from_str("error"), Json::Text(self.error.clone())));
        proof {
            lemma_keys();
            assert(names(fields@) =~= seq!["id"@, "result"@, "error"@]);
            assert(values(fields@) =~= seq![
                JsonView::Unsigned(self.id),
                JsonView::Bool(self.result),
                JsonView::Text(self.error@),
            ]);
        }
        object(fields)
    }
}

impl EthErrorView {
    /// The error as a document.
    pub open spec fn encode(self) -> JsonView {
        object_of(
            seq!["code"@, "message"@],
            seq![JsonView::Unsigned(self.code), JsonView::Text(self.message)],
        )
    }

    /// The error that a document holds, if it has the two members.
    pub open spec fn decode(doc: JsonView) -> Option<EthErrorView> {
        match (u64_at(doc, "code"@), text_at(doc, "message"@)) {
            (Some(code), Some(message)) => Some(EthErrorView { code, message }),
            _ => None,
        }
    }

    /// Reading a written error gives the error.
    pub proof fn lemma_round_trip(self)
        ensures
            EthErrorView::decode(self.encode()) == Some(self),
    {
        lemma_keys();
        let ns = seq!["code"@, "message"@];
        let vs = seq![JsonView::Unsigned(self.code), JsonView::Text(self.message)];
        lemma_object_member(ns, vs, "code"@, 0);
        lemma_object_member(ns, vs, "message"@, 1);
    }
}

impl EthError {
    /// Reads an error from a document.
    pub fn from_json(doc: &Json) -> (r: Option<EthError>)
        ensures
            match r {
                Some(c) => EthErrorView::decode(doc@) == Some(c@),
                None => EthErrorView::decode(doc@) is None,
            },
    {
        let code = match read_u64(doc, "code") {
            Some(v) => v,
            None => return None,
        };
        let message = match read_text(doc, "message") {
            Some(v) => v,
            None => return None,
        };
        Some(EthError { code, message })
    }

    /// Writes the error as a document.
    pub fn to_json(&self) -> (j: Json)
        ensures
            j@ == self@.encode(),
            j.wf(),
    {
        let mut fields: Vec<(String, Json)> = Vec::new();
        fields.push((String::from_str("code"), Json::Unsigned(self.code)));
        fields.push((String::from_str("message"), Json::Text(self.message.clone())));
        proof {
            lemma_keys();
            assert(names(fields@) =~= seq!["code"@, "message"@]);
            assert(values(fields@) =~= seq![
                JsonView::Unsigned(self.code),
                JsonView::Text(self.message@),
            ]);
        }
        object(fields)
    }
}

/// The member `key` of `doc` as an error object.
pub open spec fn error_at(doc: JsonView, key: Seq<char>) -> Option<EthErrorView> {
    match doc.member(key) {
        Some(v) => EthErrorView::decode(v),
        None => None,
    }
}

impl ObjectErrorView {
    /// The answer as a document.
    pub open spec fn encode(self) -> JsonView {
        object_of(
            seq!["id"@, "result"@, "error"@],
            seq![JsonView::Unsigned(self.id), JsonView::Bool(self.result), self.error.encode()],
        )
    }

    /// The answer that a document holds, if it has the three members.
    pub open spec fn decode(doc: JsonView) -> Option<ObjectErrorView> {
        match (u64_at(doc, "id"@), bool_at(doc, "result"@), error_at(doc, "error"@)) {
            (Some(id), Some(result), Some(error)) => Some(ObjectErrorView { id, result, error }),
            _ => None,
        }
    }

    /// Reading a written answer gives the answer.
    pub proof fn lemma_round_trip(self)
        ensures
            ObjectErrorView::decode(self.encode()) == Some(self),
    {
        lemma_keys();
        let ns = seq!["id"@, "result"@, "error"@];
        let vs = seq![
            JsonView::Unsigned(self.id),
            JsonView::Bool(self.result),
            self.error.encode(),
        ];
        lemma_object_member(ns, vs, "id"@, 0);
        lemma_object_member(ns, vs, "result"@, 1);
        lemma_object_member(ns, vs, "error"@, 2);
        self.error.lemma_round_trip();
    }
}

impl ServerError {
    /// Reads an answer from a document.
    pub fn from_json(doc: &Json) -> (r: Option<ServerError>)
        ensures
            match r {
                Some(c) => ObjectErrorView::decode(doc@) == Some(c@),
                None => ObjectErrorView::decode(doc@) is None,
            },
    {
        let id = match read_u64(doc, "id") {
            Some(id) => id,
            None => return None,
        };
        let result = match read_bool(doc, "result") {
            Some(v) => v,
            None => return None,
        };
        let error = match doc.member("error") {
            Some(v) => match EthError::from_json(v) {
                Some(e) => e,
                None => return None,
            },
            None => return None,
        };
        Some(ServerError { id, result, error })
    }

    /// Writes the answer as a document.
    pub fn to_json(&self) -> (j: Json)
        ensures
            j@ == self@.encode(),
            j.wf(),
    {
        let mut fields: Vec<(String, Json)> = Vec::new();
        fields.push((String::from_str("id"), Json::Unsigned(self.id)));
        fields.push((String::from_str("result"), Json::Bool(self.result)));
        fields.push((String::from_str("error"), self.error.to_json()));
        proof {
            lemma_keys();
            assert(names(fields@) =~= seq!["id"@, "result"@, "error"@]);
            assert(values(fields@) =~= seq![
                JsonView::Unsigned(self.id),
                JsonView::Bool(self.result),
                self.error@.encode(),
            ]);
        }
        object(fields)
    }
}

/// A triple of code, message and further data as a document.
pub open spec fn triple_doc(error: (i64, Seq<char>, JsonView)) -> JsonView {
    JsonView::Array(seq![JsonView::of_i64(error.0), JsonView::Text(error.1), error.2])
}

/// The triple that a document holds, if it is an array of exactly a number,
/// a string and one more element.
pub open spec fn triple_of(doc: JsonView) -> Option<(i64, Seq<char>, JsonView)> {
    match doc {
        JsonView::Array(a) => if a.len() == 3 {
            match (a[0].as_i64(), a[1].as_text()) {
                (Some(code), Some(message)) => Some((code, message, a[2])),
                _ => None,
            }
        } else {
            None
        },
        _ => None,
    }
}

/// The member `key` of `doc` as a triple.
pub open spec fn triple_at(doc: JsonView, key: Seq<char>) -> Option<(i64, Seq<char>, JsonView)> {
    match doc.member(key) {
        Some(v) => triple_of(v),
        None => None,
    }
}

impl TupleErrorView {
    /// The answer as a document.
    pub open spec fn encode(self) -> JsonView {
        object_of(
            seq!["id"@, "result"@, "error"@],
            seq![JsonView::of_i64(self.id), JsonView::Bool(self.result), triple_doc(self.error)],
        )
    }

    /// The answer that a document holds, if it has the three members.
    pub open spec fn decode(doc: JsonView) -> Option<TupleErrorView> {
        match (i64_at(doc, "id"@), bool_at(doc, "result"@), triple_at(doc, "error"@)) {
            (Some(id), Some(result), Some(error)) => Some(TupleErrorView { id, result, error }),
            _ => None,
        }
    }

    /// Reading a written answer gives the answer.
    pub proof fn lemma_round_trip(self)
        ensures
            TupleErrorView::decode(self.encode()) == Some(self),
    {
        lemma_keys();
        let ns = seq!["id"@, "result"@, "error"@];
        let vs = seq![
            JsonView::of_i64(self.id),
            JsonView::Bool(self.result),
            triple_doc(self.error),
        ];
        lemma_object_member(ns, vs, "id"@, 0);
        lemma_object_member(ns, vs, "result"@, 1);
        lemma_object_member(ns, vs, "error"@, 2);
        lemma_i64_round_trip(self.id);
        lemma_i64_round_trip(self.error.0);
    }
}

fn read_triple(doc: &Json) -> (r: Option<(i64, String, Json)>)
    ensures
        match r {
            Some(t) => triple_of(doc@) == Some((t.0, t.1@, t.2@)) && t.2.wf() == (match doc {
                Json::Array(items) => items@[2].wf(),
                _ => true,
            }),
            None => triple_of(doc@) is None,
        },
{
    match doc {
        Json::Array(items) => {
            proof {
                lemma_array_view(*doc);
            }
            if items.len() != 3 {
                return None;
            }
            let code = match items[0].as_i64() {
                Some(v) => v,
                None => return None,
            };
            let message = match items[1].as_text() {
                Some(v) => v,
                None => return None,
            };
            Some((code, message, items[2].duplicate()))
        },
        _ => None,
    }
}

impl ServerRootError {
    /// Reads an answer from a document.
    pub fn from_json(doc: &Json) -> (r: Option<ServerRootError>)
        ensures
            match r {
                Some(c) => TupleErrorView::decode(doc@) == Some(c@),
                None => TupleErrorView::decode(doc@) is None,
            },
            doc.wf() && r is Some ==> r.unwrap().error.2.wf(),
    {
        let id = match read_i64(doc, "id") {
            Some(id) => id,
            None => return None,
        };
        let result = match read_bool(doc, "result") {
            Some(v) => v,
            None => return None,
        };
        let error = match doc.member("error") {
            Some(v) => match read_triple(v) {
                Some(e) => e,
                None => return None,
            },
            None => return None,
        };
        Some(ServerRootError { id, result, error })
    }

    /// Writes the answer as a document.
    pub fn to_json(&self) -> (j: Json)
        ensures
            j@ == self@.encode(),
            j.wf() == self.error.2.wf(),
    {
        let mut items: Vec<Json> = Vec::new();
        items.push(Json::of_i64(self.error.0));
        items.push(Json::Text(self.error.1.clone()));
        items.push(self.error.2.duplicate());
        let triple = Json::Array(items);
        proof {
            lemma_array_view(triple);
            assert(triple@->Array_0 =~= triple_doc(self@.error)->Array_0);
            if self.error.2.wf() {
                assert forall|k: int| 0 <= k < 3 implies (#[trigger] triple->Array_0@[k]).wf() by {}
            } else {
                assert(!triple->Array_0@[2].wf());
            }
        }
        let mut fields: Vec<(String, Json)> = Vec::new();
        fields.push((String::from_str("id"), Json::of_i64(self.id)));
        fields.push((String::from_str("result"), Json::Bool(self.result)));
        fields.push((String::from_str("error"), triple));
        proof {
            lemma_keys();
            assert(names(fields@) =~= seq!["id"@, "result"@, "error"@]);
            assert(values(fields@) =~= seq![
                JsonView::of_i64(self.id),
                JsonView::Bool(self.result),
                triple_doc(self@.error),
            ]);
            if !self.error.2.wf() {
                assert(!fields@[2].1.wf());
            }
        }
        object(fields)
    }
}

impl LooseErrorView {
    /// The answer as a document.
    pub open spec fn encode(self) -> JsonView {
        object_of(
            seq!["id"@, "result"@, "error"@],
            seq![JsonView::of_i64(self.id), self.result, JsonView::Text(self.error)],
        )
    }

    /// The answer that a document holds, if it has the three members.
    pub open spec fn decode(doc: JsonView) -> Option<LooseErrorView> {
        match (i64_at(doc, "id"@), doc.member("result"@), text_at(doc, "error"@)) {
            (Some(id), Some(result), Some(error)) => Some(LooseErrorView { id, result, error }),
            _ => None,
        }
    }

    /// Reading a written answer gives the answer.
    pub proof fn lemma_round_trip(self)
        ensures
            LooseErrorView::decode(self.encode()) == Some(self),
    {
        lemma_keys();
        let ns = seq!["id"@, "result"@, "error"@];
        let vs = seq![JsonView::of_i64(self.id), self.result, JsonView::Text(self.error)];
        lemma_object_member(ns, vs, "id"@, 0);
        lemma_object_member(ns, vs, "result"@, 1);
        lemma_object_member(ns, vs, "error"@, 2);
        lemma_i64_round_trip(self.id);
    }
}

impl ServerRootErrorValue {
    /// Reads an answer from a document.
    pub fn from_json(doc: &Json) -> (r: Option<ServerRootErrorValue>)
        ensures
            match r {
                Some(c) => LooseErrorView::decode(doc@) == Some(c@),
                None => LooseErrorView::decode(doc@) is None,
            },
            doc.wf() && r is Some ==> r.unwrap().result.wf(),
    {
        let id = match read_i64(doc, "id") {
            Some(id) => id,
            None => return None,
        };
        let result = match doc.member("result") {
            Some(v) => v.duplicate(),
            None => return None,
        };
        let error = match read_text(doc, "error") {
            Some(v) => v,
            None => return None,
        };
        Some(ServerRootErrorValue { id, result, error })
    }

    /// Writes the answer as a document.
    pub fn to_json(&self) -> (j: Json)
        ensures
            j@ == self@.encode(),
            j.wf() == self.result.wf(),
    {
        let mut fields: Vec<(String, Json)> = Vec::new();
        fields.push((String::from_str("id"), Json::of_i64(self.id)));
        fields.push((String::from_str("result"), self.result.duplicate()));
        fields.push((String::from_str("error"), Json::Text(self.error.clone())));
        proof {
            lemma_keys();
            assert(names(fields@) =~= seq!["id"@, "result"@, "error"@]);
            assert(values(fields@) =~= seq![
                JsonView::of_i64(self.id),
                self.result@,
                JsonView::Text(self.error@),
            ]);
            if !self.result.wf() {
                assert(!fields@[1].1.wf());
            }
        }
        object(fields)
    }
}

} // verus!
