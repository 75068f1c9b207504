//! The message shapes of Ethereum Stratum and `eth_getWork`.
//!
//! A miner's requests carry `id`, `method` and `params`, and some name the
//! worker in a field of its own. A pool answers with jobs (arrays of
//! strings), acknowledgements (booleans) and errors in three forms.

use crate::protocol::json::Json;
use crate::protocol::json::JsonView;
use crate::util::hex::parse_hex;
use crate::util::hex::parse_hex_spec;
use crate::util::text::find;
use crate::protocol::json::document;
use crate::protocol::json::parse;
use crate::util::text::bytes_text;
use crate::util::text::decimal_digits;
use crate::util::text::format_bytes;
use crate::util::text::find_spec;
use crate::util::text::push_decimal;
use vstd::prelude::*;

verus! {

/// The element at position `i`, if the list is that long.
pub open spec fn element(list: Seq<Seq<char>>, i: int) -> Option<Seq<char>> {
    if 0 <= i < list.len() {
        Some(list[i])
    } else {
        None
    }
}

/// The name a worker gets when a login names none.
pub open spec fn default_worker() -> Seq<char> {
    "Default"@
}

/// The protocol name by which a subscription selects Stratum 1.0.0.
pub open spec fn stratum_tag() -> Seq<char> {
    "EthereumStratum/1.0.0"@
}

/// The worker that a wallet string names: what follows its first `.`, if
/// anything does.
pub open spec fn wallet_suffix(wallet: Seq<char>) -> Option<Seq<char>> {
    match find_spec(wallet, '.') {
        Some(i) => if i + 1 < wallet.len() {
            Some(wallet.skip(i + 1))
        } else {
            None
        },
        None => None,
    }
}

/// The worker name of a login that has no `worker` field: the suffix of its
/// wallet, or `Default`.
pub open spec fn worker_of_params(params: Seq<Seq<char>>) -> Seq<char> {
    match element(params, 0) {
        Some(wallet) => match wallet_suffix(wallet) {
            Some(name) => name,
            None => default_worker(),
        },
        None => default_worker(),
    }
}

/// Whether the second parameter selects Stratum 1.0.0.
pub open spec fn selects_stratum(params: Seq<Seq<char>>) -> bool {
    element(params, 1) == Some(stratum_tag())
}

/// The hashrate that the first parameter reports, or 0 if there is none.
pub open spec fn hashrate_of(params: Seq<Seq<char>>) -> u64 {
    match element(params, 0) {
        Some(h) => parse_hex_spec(h),
        None => 0,
    }
}

/// The difficulty in slot 3 of a job, or 0 if the job has no such slot.
pub open spec fn diff_of(result: Seq<Seq<char>>) -> u64 {
    match element(result, 3) {
        Some(d) => parse_hex_spec(d),
        None => 0,
    }
}

/// A copy of the element at position `i`, if the list is that long.
pub fn element_at(list: &Vec<String>, i: usize) -> (r: Option<String>)
    ensures
        match r {
            Some(s) => element(list.deep_view(), i as int) == Some(s@),
            None => element(list.deep_view(), i as int) is None,
        },
{
    if i < list.len() {
        Some(list[i].clone())
    } else {
        None
    }
}

/// The worker name of a login that has no `worker` field.
pub fn worker_from_params(params: &Vec<String>) -> (r: String)
    ensures
        r@ == worker_of_params(params.deep_view()),
{
    if params.len() > 0 {
        let wallet = params[0].as_str();
        match find(wallet, '.') {
            Some(i) => {
                let n = wallet.unicode_len();
                if i + 1 < n {
                    return String::from_str(wallet.substring_char(i + 1, n));
                }
            },
            None => {},
        }
    }
    String::from_str("Default")
}

/// What a request consists of; the view of [`Client`], [`ClientGetWork`] and
/// [`ClientSubmitHashrate`].
pub struct RequestView {
    pub id: u64,
    pub method: Seq<char>,
    pub params: Seq<Seq<char>>,
}

/// The view of [`ClientWithWorkerName`].
pub struct NamedRequestView {
    pub id: u64,
    pub method: Seq<char>,
    pub params: Seq<Seq<char>>,
    pub worker: Seq<char>,
}

/// What every request of a miner offers, whichever shape it came in.
pub trait ClientRpc: Sized {
    /// The request's `id`, `method` and `params`.
    spec fn request(&self) -> RequestView;

    /// Whether the shape has a `worker` field.
    spec fn names_worker(&self) -> bool;

    /// The effective worker name.
    spec fn worker_name(&self) -> Seq<char>;

    /// Replaces the id.
    fn set_id(&mut self, id: u64) -> (ok: bool)
        ensures
            ok,
            final(self).request() == (RequestView { id, ..old(self).request() }),
            final(self).names_worker() == old(self).names_worker(),
            final(self).worker_name() == old(self).worker_name(),
    ;

    /// The id.
    fn get_id(&mut self) -> (id: u64)
        ensures
            id == old(self).request().id,
            *final(self) == *old(self),
    ;

    /// The second parameter: in a share, the header hash that names its job.
    fn get_job_id(&mut self) -> (r: Option<String>)
        ensures
            match r {
                Some(s) => element(old(self).request().params, 1) == Some(s@),
                None => element(old(self).request().params, 1) is None,
            },
            *final(self) == *old(self),
    ;

    /// The first parameter: in a login, the wallet.
    fn get_eth_wallet(&mut self) -> (r: Option<String>)
        ensures
            match r {
                Some(s) => element(old(self).request().params, 0) == Some(s@),
                None => element(old(self).request().params, 0) is None,
            },
            *final(self) == *old(self),
    ;

    /// The effective worker name.
    fn get_worker_name(&mut self) -> (name: String)
        ensures
            name@ == old(self).worker_name(),
            *final(self) == *old(self),
    ;

    /// Renames the worker, where the shape has a field for it.
    fn set_worker_name(&mut self, worker_name: &str) -> (ok: bool)
        ensures
            ok,
            final(self).request() == old(self).request(),
            final(self).names_worker() == old(self).names_worker(),
            final(self).worker_name() == if old(self).names_worker() {
                worker_name@
            } else {
                old(self).worker_name()
            },
    ;

    /// Whether the request, read as a subscription, selects Stratum 1.0.0.
    fn if_parse_protocol_eth_statum(&self) -> (r: bool)
        ensures
            r == selects_stratum(self.request().params),
    ;

    /// The hashrate that the request, read as a hashrate report, carries.
    fn get_submit_hashrate(&self) -> (r: u64)
        ensures
            r == hashrate_of(self.request().params),
    ;
}

/// A request without a `worker` field, such as
/// `{"id":1,"method":"eth_submitLogin","params":["0x70..b0","x"]}`.
#[derive(Default, Debug, Clone, PartialEq)]
pub struct Client {
    pub id: u64,
    pub method: String,
    pub params: Vec<String>,
}

impl View for Client {
    type V = RequestView;

    open spec fn view(&self) -> RequestView {
        RequestView { id: self.id, method: self.method@, params: self.params.deep_view() }
    }
}

fn selects_stratum_exec(params: &Vec<String>) -> (r: bool)
    ensures
        r == selects_stratum(params.deep_view()),
{
    if params.len() > 1 {
        let tag = String::from_str("EthereumStratum/1.0.0");
        params[1] == tag
    } else {
        false
    }
}

fn hashrate_exec(params: &Vec<String>) -> (r: u64)
    ensures
        r == hashrate_of(params.deep_view()),
{
    if params.len() > 0 {
        parse_hex(params[0].as_str())
    } else {
        0
    }
}

fn diff_exec(result: &Vec<String>) -> (r: u64)
    ensures
        r == diff_of(result.deep_view()),
{
    if result.len() > 3 {
        parse_hex(result[3].as_str())
    } else {
        0
    }
}

impl ClientRpc for Client {
    open spec fn request(&self) -> RequestView {
        self@
    }

    open spec fn names_worker(&self) -> bool {
        false
    }

    open spec fn worker_name(&self) -> Seq<char> {
        worker_of_params(self.params.deep_view())
    }

    fn set_id(&mut self, id: u64) -> (ok: bool)
        ensures
            final(self).method == old(self).method,
            final(self).params == old(self).params,
    {
        self.id = id;
        true
    }

    fn get_id(&mut self) -> (id: u64) {
        self.id
    }

    fn get_job_id(&mut self) -> (r: Option<String>) {
        element_at(&self.params, 1)
    }

    fn get_eth_wallet(&mut self) -> (r: Option<String>) {
        element_at(&self.params, 0)
    }

    fn get_worker_name(&mut self) -> (name: String) {
        worker_from_params(&self.params)
    }

    fn set_worker_name(&mut self, worker_name: &str) -> (ok: bool)
        ensures
            *final(self) == *old(self),
    {
        true
    }

    fn if_parse_protocol_eth_statum(&self) -> (r: bool) {
        selects_stratum_exec(&self.params)
    }

    fn get_submit_hashrate(&self) -> (r: u64) {
        hashrate_exec(&self.params)
    }
}

/// A request with a `worker` field, such as
/// `{"id":1,"method":"eth_submitLogin","params":["0x70..b0","x"],"worker":"rig2"}`.
#[derive(Default, Debug, Clone, PartialEq)]
pub struct ClientWithWorkerName {
    pub id: u64,
    pub method: String,
    pub params: Vec<String>,
    pub worker: String,
}

impl View for ClientWithWorkerName {
    type V = NamedRequestView;

    open spec fn view(&self) -> NamedRequestView {
        NamedRequestView {
            id: self.id,
            method: self.method@,
            params: self.params.deep_view(),
            worker: self.worker@,
        }
    }
}

impl ClientRpc for ClientWithWorkerName {
    open spec fn request(&self) -> RequestView {
        RequestView { id: self.id, method: self.method@, params: self.params.deep_view() }
    }

    open spec fn names_worker(&self) -> bool {
        true
    }

    open spec fn worker_name(&self) -> Seq<char> {
        self.worker@
    }

    fn set_id(&mut self, id: u64) -> (ok: bool)
        ensures
            final(self).method == old(self).method,
            final(self).params == old(self).params,
            final(self).worker == old(self).worker,
    {
        self.id = id;
        true
    }

    fn get_id(&mut self) -> (id: u64) {
        self.id
    }

    fn get_job_id(&mut self) -> (r: Option<String>) {
        element_at(&self.params, 1)
    }

    fn get_eth_wallet(&mut self) -> (r: Option<String>) {
        element_at(&self.params, 0)
    }

    fn get_worker_name(&mut self) -> (name: String) {
        self.worker.clone()
    }

    fn set_worker_name(&mut self, worker_name: &str) -> (ok: bool)
        ensures
            final(self).id == old(self).id,
            final(self).method == old(self).method,
            final(self).params == old(self).params,
    {
        self.worker = String::from_str(worker_name);
        true
    }

    fn if_parse_protocol_eth_statum(&self) -> (r: bool) {
        selects_stratum_exec(&self.params)
    }

    fn get_submit_hashrate(&self) -> (r: u64) {
        hashrate_exec(&self.params)
    }
}

/// An `eth_getWork` request.
#[derive(Default, Debug, Clone, PartialEq)]
pub struct ClientGetWork {
    pub id: u64,
    pub method: String,
    pub params: Vec<String>,
}

impl View for ClientGetWork {
    type V = RequestView;

    open spec fn view(&self) -> RequestView {
        RequestView { id: self.id, method: self.method@, params: self.params.deep_view() }
    }
}

/// An `eth_submitHashrate` request.
#[derive(Default, Debug, Clone, PartialEq)]
pub struct ClientSubmitHashrate {
    pub id: u64,
    pub method: String,
    pub params: Vec<String>,
}

impl View for ClientSubmitHashrate {
    type V = RequestView;

    open spec fn view(&self) -> RequestView {
        RequestView { id: self.id, method: self.method@, params: self.params.deep_view() }
    }
}


/// The result of a job with its difficulty slot rewritten: slot 3 becomes
/// `diff` where the job has one, and a job without the slot stays as it is.
pub open spec fn with_diff(result: Seq<Seq<char>>, diff: Seq<char>) -> Seq<Seq<char>> {
    if result.len() > 3 {
        result.update(3, diff)
    } else {
        result
    }
}

fn set_diff_exec(result: &mut Vec<String>, diff: String)
    ensures
        final(result).deep_view() == with_diff(old(result).deep_view(), diff@),
{
    if result.len() > 3 {
        result[3] = diff;
        proof {
            assert(result.deep_view() =~= old(result).deep_view().update(3, diff@));
        }
    }
}

/// What every job notification of a pool offers, whichever shape it came
/// in.
pub trait ServerRpc: Sized {
    /// The notification's `id`.
    spec fn rpc_id(&self) -> u64;

    /// The notification's `result`: job id, seed hash, header hash and,
    /// from some pools, the boundary.
    spec fn rpc_result(&self) -> Seq<Seq<char>>;

    /// The difficulty that the notification reports.
    spec fn diff(&self) -> u64;

    /// Replaces the id.
    fn set_id(&mut self, id: u64) -> (ok: bool)
        ensures
            ok,
            final(self).rpc_id() == id,
            final(self).rpc_result() == old(self).rpc_result(),
    ;

    /// The id.
    fn get_id(&mut self) -> (id: u64)
        ensures
            id == old(self).rpc_id(),
            *final(self) == *old(self),
    ;

    /// Replaces the result.
    fn set_result(&mut self, res: Vec<String>) -> (ok: bool)
        ensures
            ok,
            final(self).rpc_id() == old(self).rpc_id(),
            final(self).rpc_result() == res.deep_view(),
    ;

    /// Rewrites the difficulty slot, where the job has one.
    fn set_diff(&mut self, diff: String) -> (ok: bool)
        ensures
            ok,
            final(self).rpc_id() == old(self).rpc_id(),
            final(self).rpc_result() == with_diff(old(self).rpc_result(), diff@),
    ;

    /// The difficulty that the notification reports.
    fn get_diff(&self) -> (r: u64)
        ensures
            r == self.diff(),
    ;

    /// The first element of the result: the job id.
    fn get_job_id(&self) -> (r: Option<String>)
        ensures
            match r {
                Some(s) => element(self.rpc_result(), 0) == Some(s@),
                None => element(self.rpc_result(), 0) is None,
            },
    ;
}

/// The view of [`ServerSideJob`].
pub struct VersionedJobView {
    pub id: u64,
    pub jsonrpc: Seq<char>,
    pub result: Seq<Seq<char>>,
}

/// A job notification that carries `jsonrpc`.
#[derive(Default, Debug, Clone, PartialEq)]
pub struct ServerSideJob {
    pub id: u64,
    pub jsonrpc: String,
    pub result: Vec<String>,
}

impl View for ServerSideJob {
    type V = VersionedJobView;

    open spec fn view(&self) -> VersionedJobView {
        VersionedJobView { id: self.id, jsonrpc: self.jsonrpc@, result: self.result.deep_view() }
    }
}

impl ServerRpc for ServerSideJob {
    open spec fn rpc_id(&self) -> u64 {
        self.id
    }

    open spec fn rpc_result(&self) -> Seq<Seq<char>> {
        self.result.deep_view()
    }

    open spec fn diff(&self) -> u64 {
        diff_of(self.result.deep_view())
    }

    fn set_id(&mut self, id: u64) -> (ok: bool)
        ensures
            final(self).jsonrpc == old(self).jsonrpc,
            final(self).result == old(self).result,
    {
        self.id = id;
        true
    }

    fn get_id(&mut self) -> (id: u64) {
        self.id
    }

    fn set_result(&mut self, res: Vec<String>) -> (ok: bool)
        ensures
            final(self).jsonrpc == old(self).jsonrpc,
            final(self).result == res,
    {
        self.result = res;
        true
    }

    fn set_diff(&mut self, diff: String) -> (ok: bool)
        ensures
            final(self).jsonrpc == old(self).jsonrpc,
    {
        set_diff_exec(&mut self.result, diff);
        true
    }

    fn get_diff(&self) -> (r: u64) {
        diff_exec(&self.result)
    }

    fn get_job_id(&self) -> (r: Option<String>) {
        element_at(&self.result, 0)
    }
}

/// The view of [`Server`].
pub struct JobView {
    pub id: u64,
    pub result: Seq<Seq<char>>,
}

/// A job notification of `id` and `result` alone.
#[derive(Default, Debug, Clone, PartialEq)]
pub struct Server {
    pub id: u64,
    pub result: Vec<String>,
}

impl View for Server {
    type V = JobView;

    open spec fn view(&self) -> JobView {
        JobView { id: self.id, result: self.result.deep_view() }
    }
}

impl ServerRpc for Server {
    open spec fn rpc_id(&self) -> u64 {
        self.id
    }

    open spec fn rpc_result(&self) -> Seq<Seq<char>> {
        self.result.deep_view()
    }

    open spec fn diff(&self) -> u64 {
        diff_of(self.result.deep_view())
    }

    fn set_id(&mut self, id: u64) -> (ok: bool)
        ensures
            final(self).result == old(self).result,
    {
        self.id = id;
        true
    }

    fn get_id(&mut self) -> (id: u64) {
        self.id
    }

    fn set_result(&mut self, res: Vec<String>) -> (ok: bool)
        ensures
            final(self).result == res,
    {
        self.result = res;
        true
    }

    fn set_diff(&mut self, diff: String) -> (ok: bool) {
        set_diff_exec(&mut self.result, diff);
        true
    }

    fn get_diff(&self) -> (r: u64) {
        diff_exec(&self.result)
    }

    fn get_job_id(&self) -> (r: Option<String>) {
        element_at(&self.result, 0)
    }
}

/// The view of [`ServerJobsWithHeight`].
pub struct HeightJobView {
    pub id: u64,
    pub result: Seq<Seq<char>>,
    pub jsonrpc: Seq<char>,
    pub height: u64,
}

/// A job notification that carries the block height beside the result, such
/// as `{"id":0,"jsonrpc":"2.0","result":["0x0d..","0x1b..","0x00..","00"],"height":13834471}`.
#[derive(Default, Debug, Clone, PartialEq)]
pub struct ServerJobsWithHeight {
    pub id: u64,
    pub result: Vec<String>,
    pub jsonrpc: String,
    pub height: u64,
}

impl View for ServerJobsWithHeight {
    type V = HeightJobView;

    open spec fn view(&self) -> HeightJobView {
        HeightJobView {
            id: self.id,
            result: self.result.deep_view(),
            jsonrpc: self.jsonrpc@,
            height: self.height,
        }
    }
}

impl ServerRpc for ServerJobsWithHeight {
    open spec fn rpc_id(&self) -> u64 {
        self.id
    }

    open spec fn rpc_result(&self) -> Seq<Seq<char>> {
        self.result.deep_view()
    }

    open spec fn diff(&self) -> u64 {
        self.height
    }

    fn set_id(&mut self, id: u64) -> (ok: bool)
        ensures
            final(self).result == old(self).result,
            final(self).jsonrpc == old(self).jsonrpc,
            final(self).height == old(self).height,
    {
        self.id = id;
        true
    }

    fn get_id(&mut self) -> (id: u64) {
        self.id
    }

    fn set_result(&mut self, res: Vec<String>) -> (ok: bool)
        ensures
            final(self).result == res,
            final(self).jsonrpc == old(self).jsonrpc,
            final(self).height == old(self).height,
    {
        self.result = res;
        true
    }

    fn set_diff(&mut self, diff: String) -> (ok: bool)
        ensures
            final(self).jsonrpc == old(self).jsonrpc,
            final(self).height == old(self).height,
    {
        set_diff_exec(&mut self.result, diff);
        true
    }

    fn get_diff(&self) -> (r: u64) {
        self.height
    }

    fn get_job_id(&self) -> (r: Option<String>) {
        element_at(&self.result, 0)
    }
}

/// The view of [`ServerRoot`].
pub struct TextErrorView {
    pub id: u64,
    pub result: bool,
    pub error: Seq<char>,
}

/// An answer whose error is a string.
#[derive(Default, Debug, Clone, PartialEq)]
pub struct ServerRoot {
    pub id: u64,
    pub result: bool,
    pub error: String,
}

impl View for ServerRoot {
    type V = TextErrorView;

    open spec fn view(&self) -> TextErrorView {
        TextErrorView { id: self.id, result: self.result, error: self.error@ }
    }
}

/// The view of [`EthError`].
pub struct EthErrorView {
    pub code: u64,
    pub message: Seq<char>,
}

/// The error of an answer in object form.
#[derive(Default, Debug, Clone, PartialEq)]
pub struct EthError {
    pub code: u64,
    pub message: String,
}

impl View for EthError {
    type V = EthErrorView;

    open spec fn view(&self) -> EthErrorView {
        EthErrorView { code: self.code, message: self.message@ }
    }
}

impl EthErrorView {
    /// The error as a line of text: `code: 21  msg : stale`.
    pub open spec fn text(self) -> Seq<char> {
        "code: "@ + decimal_digits(self.code as nat) + "  msg : "@ + self.message
    }
}

impl EthError {
    /// The error as a line of text: `code: 21  msg : stale`.
    pub fn to_string(&self) -> (r: String)
        ensures
            r@ == self@.text(),
    {
        let mut out = String::from_str("code: ");
        push_decimal(&mut out, self.code);
        out.append("  msg : ");
        out.append(self.message.as_str());
        out
    }
}

/// The view of [`ServerError`].
pub struct ObjectErrorView {
    pub id: u64,
    pub result: bool,
    pub error: EthErrorView,
}

/// An answer whose error is an object of `code` and `message`.
#[derive(Default, Debug, Clone, PartialEq)]
pub struct ServerError {
    pub id: u64,
    pub result: bool,
    pub error: EthError,
}

impl View for ServerError {
    type V = ObjectErrorView;

    open spec fn view(&self) -> ObjectErrorView {
        ObjectErrorView { id: self.id, result: self.result, error: self.error@ }
    }
}

/// The view of [`ServerId1`].
pub struct AckView {
    pub id: u64,
    pub result: bool,
}

/// An acknowledgement of `id` and `result` alone.
#[derive(Default, Debug, Clone, Copy, PartialEq, Eq)]
pub struct ServerId1 {
    pub id: u64,
    pub result: bool,
}

impl View for ServerId1 {
    type V = AckView;

    open spec fn view(&self) -> AckView {
        AckView { id: self.id, result: self.result }
    }
}

/// The view of [`ServerId`].
pub struct VersionedAckView {
    pub id: u64,
    pub jsonrpc: Seq<char>,
    pub result: bool,
}

/// An acknowledgement that carries `jsonrpc`, such as
/// `{"id":4,"jsonrpc":"2.0","result":true}`.
#[derive(Default, Debug, Clone, PartialEq)]
pub struct ServerId {
    pub id: u64,
    pub jsonrpc: String,
    pub result: bool,
}

impl View for ServerId {
    type V = VersionedAckView;

    open spec fn view(&self) -> VersionedAckView {
        VersionedAckView { id: self.id, jsonrpc: self.jsonrpc@, result: self.result }
    }
}

/// The view of [`ServerRootError`].
pub struct TupleErrorView {
    pub id: i64,
    pub result: bool,
    pub error: (i64, Seq<char>, JsonView),
}

/// An answer whose error is a triple of code, message and further data, such
/// as `{"id":197,"result":false,"error":[21,"Job not found (=stale)",null]}`.
#[derive(Debug, PartialEq)]
pub struct ServerRootError {
    pub id: i64,
    pub result: bool,
    pub error: (i64, String, Json),
}

impl View for ServerRootError {
    type V = TupleErrorView;

    open spec fn view(&self) -> TupleErrorView {
        TupleErrorView {
            id: self.id,
            result: self.result,
            error: (self.error.0, self.error.1@, self.error.2@),
        }
    }
}

impl Clone for ServerRootError {
    fn clone(&self) -> (r: ServerRootError)
        ensures
            r@ == self@,
            r.error.2.wf() == self.error.2.wf(),
    {
        ServerRootError {
            id: self.id,
            result: self.result,
            error: (self.error.0, self.error.1.clone(), self.error.2.duplicate()),
        }
    }
}

impl Default for ServerRootError {
    fn default() -> (r: ServerRootError)
        ensures
            r@ == (TupleErrorView {
                id: 0,
                result: false,
                error: (0, Seq::empty(), JsonView::Null),
            }),
            r.error.2.wf(),
    {
        ServerRootError { id: 0, result: false, error: (0, String::new(), Json::Null) }
    }
}

/// The view of [`ServerRootErrorValue`].
pub struct LooseErrorView {
    pub id: i64,
    pub result: JsonView,
    pub error: Seq<char>,
}

/// An answer whose error is a string and whose result may be anything.
#[derive(Debug, PartialEq)]
pub struct ServerRootErrorValue {
    pub id: i64,
    pub result: Json,
    pub error: String,
}

impl View for ServerRootErrorValue {
    type V = LooseErrorView;

    open spec fn view(&self) -> LooseErrorView {
        LooseErrorView { id: self.id, result: self.result@, error: self.error@ }
    }
}


impl Clone for ServerRootErrorValue {
    fn clone(&self) -> (r: ServerRootErrorValue)
        ensures
            r@ == self@,
            r.result.wf() == self.result.wf(),
    {
        ServerRootErrorValue {
            id: self.id,
            result: self.result.duplicate(),
            error: self.error.clone(),
        }
    }
}

impl Default for ServerRootErrorValue {
    fn default() -> (r: ServerRootErrorValue)
        ensures
            r@ == (LooseErrorView { id: 0, result: JsonView::Null, error: Seq::empty() }),
            r.result.wf(),
    {
        ServerRootErrorValue { id: 0, result: Json::Null, error: String::new() }
    }
}

/// How many bytes of an answer that fits no shape are shown in the log.
pub const SHOWN_BYTES: usize = 256;

/// What a pool's answer says about a refused share.
pub enum RejectionView {
    /// An error of code and message.
    Coded(EthErrorView),
    /// An error given as a string; it says nothing that is worth a line.
    Unexplained,
    /// An error given as a triple; its message.
    Described(Seq<char>),
    /// An answer that fits no shape; its first bytes.
    Unrecognised(Seq<u8>),
}

/// What a pool's answer says about a refused share.
#[derive(Debug, PartialEq)]
pub enum Rejection {
    /// An error of code and message.
    Coded(EthError),
    /// An error given as a string; it says nothing that is worth a line.
    Unexplained,
    /// An error given as a triple; its message.
    Described(String),
    /// An answer that fits no shape; its first bytes.
    Unrecognised(Vec<u8>),
}

impl View for Rejection {
    type V = RejectionView;

    open spec fn view(&self) -> RejectionView {
        match self {
            Rejection::Coded(e) => RejectionView::Coded(e@),
            Rejection::Unexplained => RejectionView::Unexplained,
            Rejection::Described(m) => RejectionView::Described(m@),
            Rejection::Unrecognised(b) => RejectionView::Unrecognised(b@),
        }
    }
}

/// The first [`SHOWN_BYTES`] bytes of `buf`.
pub open spec fn shown(buf: Seq<u8>) -> Seq<u8> {
    if buf.len() > SHOWN_BYTES {
        buf.take(SHOWN_BYTES as int)
    } else {
        buf
    }
}

/// What the answer `buf` says, given the document it holds, if it holds
/// one. The object form is tried first, then the string form, then the
/// tuple form.
pub open spec fn rejection_of(doc: Option<JsonView>, buf: Seq<u8>) -> RejectionView {
    match doc {
        None => RejectionView::Unrecognised(shown(buf)),
        Some(d) => if let Some(e) = ObjectErrorView::decode(d) {
            RejectionView::Coded(e.error)
        } else if TextErrorView::decode(d) is Some {
            RejectionView::Unexplained
        } else if let Some(e) = TupleErrorView::decode(d) {
            RejectionView::Described(e.error.1)
        } else {
            RejectionView::Unrecognised(shown(buf))
        },
    }
}

/// The line for the log about a refused share of `who`, or none where the
/// answer is not worth one.
pub open spec fn notice(label: Seq<char>, who: Seq<char>, rejection: RejectionView) -> Option<
    Seq<char>,
> {
    let head = label + who + " Share Reject: "@;
    match rejection {
        RejectionView::Coded(e) => Some(head + e.text()),
        RejectionView::Unexplained => None,
        RejectionView::Described(m) => Some(head + m),
        RejectionView::Unrecognised(b) => Some(head + bytes_text(b)),
    }
}

/// Reads what an answer says about a refused share. `doc` is the document
/// that `buf` holds, if it holds one.
pub fn classify_rejection(doc: Option<&Json>, buf: &[u8]) -> (r: Rejection)
    ensures
        r@ == rejection_of(
            match doc {
                Some(d) => Some(d@),
                None => None,
            },
            buf@,
        ),
{
    if let Some(d) = doc {
        if let Some(e) = ServerError::from_json(d) {
            return Rejection::Coded(e.error);
        }
        if ServerRoot::from_json(d).is_some() {
            return Rejection::Unexplained;
        }
        if let Some(e) = ServerRootError::from_json(d) {
            return Rejection::Described(e.error.1);
        }
    }
    let n = if buf.len() > SHOWN_BYTES {
        SHOWN_BYTES
    } else {
        buf.len()
    };
    let mut head: Vec<u8> = Vec::new();
    let mut i: usize = 0;
    while i < n
        invariant
            i <= n <= buf@.len(),
            head@ == buf@.take(i as int),
        decreases n - i,
    {
        head.push(buf[i]);
        proof {
            assert(buf@.take(i + 1) =~= buf@.take(i as int).push(buf@[i as int]));
        }
        i = i + 1;
    }
    proof {
        assert(buf@.take(buf@.len() as int) =~= buf@);
    }
    Rejection::Unrecognised(head)
}

/// Writes the line for the log about a refused share.
pub fn rejection_notice(label: &str, who: &str, rejection: &Rejection) -> (r: Option<String>)
    ensures
        match r {
            Some(line) => notice(label@, who@, rejection@) == Some(line@),
            None => notice(label@, who@, rejection@) is None,
        },
{
    let mut line = String::from_str(label);
    line.append(who);
    line.append(" Share Reject: ");
    match rejection {
        Rejection::Coded(e) => {
            let text = e.to_string();
            line.append(text.as_str());
            Some(line)
        },
        Rejection::Unexplained => None,
        Rejection::Described(m) => {
            line.append(m.as_str());
            Some(line)
        },
        Rejection::Unrecognised(b) => {
            let text = format_bytes(b.as_slice());
            line.append(text.as_str());
            Some(line)
        },
    }
}

/// The label of a fee worker in the log.
pub open spec fn fee_label() -> Seq<char> {
    "fee worker "@
}

/// The label of a miner's worker in the log.
pub open spec fn worker_label() -> Seq<char> {
    "worker "@
}

/// The line for the log about a share of fee worker `worker_id` that the
/// pool refused with `buf`, or none where the answer is not worth one.
pub fn handle_error(worker_id: u64, buf: &[u8]) -> (r: Option<String>)
    ensures
        match r {
            Some(line) => notice(
                fee_label(),
                decimal_digits(worker_id as nat),
                rejection_of(document(buf@), buf@),
            ) == Some(line@),
            None => notice(
                fee_label(),
                decimal_digits(worker_id as nat),
                rejection_of(document(buf@), buf@),
            ) is None,
        },
{
    let mut who = String::new();
    push_decimal(&mut who, worker_id);
    proof {
        assert(who@ =~= decimal_digits(worker_id as nat));
    }
    let rejection = match parse(buf) {
        Ok(doc) => classify_rejection(Some(&doc), buf),
        Err(_) => classify_rejection(None, buf),
    };
    rejection_notice("fee worker ", who.as_str(), &rejection)
}

/// The line for the log about a share of `worker_name` that the pool
/// refused with `buf`, or none where the answer is not worth one.
pub fn handle_error_for_worker(worker_name: &String, buf: &[u8]) -> (r: Option<String>)
    ensures
        match r {
            Some(line) => notice(
                worker_label(),
                worker_name@,
                rejection_of(document(buf@), buf@),
            ) == Some(line@),
            None => notice(worker_label(), worker_name@, rejection_of(document(buf@), buf@))
                is None,
        },
{
    let rejection = match parse(buf) {
        Ok(doc) => classify_rejection(Some(&doc), buf),
        Err(_) => classify_rejection(None, buf),
    };
    rejection_notice("worker ", worker_name.as_str(), &rejection)
}

} // verus!
