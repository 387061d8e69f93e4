//! The drift engine of one worker: the requests in flight, the drifts they
//! issued, the memo of completed drifts, and the counters that number both.
//! An action calls a long-running operation as if it were synchronous; the
//! first call suspends the action, and every later execution of the action
//! replays the calls it made before from the memo.
//!
//! Drift ids are counted from the start of each request, so two requests
//! that are in flight on one worker at the same time can be given the same
//! id; the engine then keeps the drift for the request that issued it last.

use std::collections::HashMap;
use vstd::prelude::*;
use vstd::string::StringExecFns;
use crate::fast_path::{collect_string_members, headers_view, string_members};
use crate::json::{
    get_member, items_view, lemma_array_view, lemma_object_view, member, members_view, Json,
    JsonValue,
};
use crate::text::{chars_of, same_text};

verus! {

broadcast use {
    vstd::std_specs::hash::group_hash_axioms,
    vstd::std_specs::vec::axiom_vec_index_decreases,
};

/// An asynchronous operation that an action hands to the executor.
#[derive(Debug)]
pub enum TitanAsyncOp {
    Fetch { url: String, method: String, body: Option<String>, headers: Vec<(String, String)> },
    DbQuery { conn: String, query: String },
    FsRead { path: String },
    Batch(Vec<TitanAsyncOp>),
}

/// The mathematical value of a [`TitanAsyncOp`].
pub enum OpView {
    Fetch {
        url: Seq<char>,
        method: Seq<char>,
        body: Option<Seq<char>>,
        headers: Seq<(Seq<char>, Seq<char>)>,
    },
    DbQuery { conn: Seq<char>, query: Seq<char> },
    FsRead { path: Seq<char> },
    Batch(Seq<OpView>),
}

impl View for TitanAsyncOp {
    type V = OpView;

    open spec fn view(&self) -> OpView
        decreases self, 0nat,
    {
        match self {
            TitanAsyncOp::Fetch { url, method, body, headers } => OpView::Fetch {
                url: url@,
                method: method@,
                body: match body {
                    Some(text) => Some(text@),
                    None => None,
                },
                headers: headers_view(headers@),
            },
            TitanAsyncOp::DbQuery { conn, query } => OpView::DbQuery {
                conn: conn@,
                query: query@,
            },
            TitanAsyncOp::FsRead { path } => OpView::FsRead { path: path@ },
            TitanAsyncOp::Batch(ops) => OpView::Batch(first_ops_view(*ops, ops@.len())),
        }
    }
}

/// The values of the first `n` operations.
pub open spec fn first_ops_view(ops: Vec<TitanAsyncOp>, n: nat) -> Seq<OpView>
    decreases ops, n,
{
    if n == 0 || n > ops@.len() {
        Seq::empty()
    } else {
        first_ops_view(ops, (n - 1) as nat).push(ops@[n - 1].view())
    }
}

/// The values of a sequence of operations.
pub open spec fn ops_view(ops: Seq<TitanAsyncOp>) -> Seq<OpView> {
    Seq::new(ops.len(), |i: int| ops[i]@)
}

proof fn lemma_first_ops_view(ops: Vec<TitanAsyncOp>, n: nat)
    requires
        n <= ops@.len(),
    ensures
        first_ops_view(ops, n) == ops_view(ops@).subrange(0, n as int),
    decreases n,
{
    if n > 0 {
        lemma_first_ops_view(ops, (n - 1) as nat);
        assert(ops_view(ops@)[n - 1] == ops@[n - 1].view());
    }
    assert(first_ops_view(ops, n) =~= ops_view(ops@).subrange(0, n as int));
}

/// The view of a batch is the sequence of its operations' views.
pub proof fn lemma_batch_view(ops: Vec<TitanAsyncOp>)
    ensures
        TitanAsyncOp::Batch(ops)@ == OpView::Batch(ops_view(ops@)),
{
    lemma_first_ops_view(ops, ops@.len());
    assert(ops_view(ops@).subrange(0, ops@.len() as int) =~= ops_view(ops@));
}

/// The text of the member `key`, where it is a string.
pub open spec fn text_member(members: Seq<(Seq<char>, Json)>, key: Seq<char>) -> Option<Seq<char>> {
    match member(members, key) {
        Some(Json::Text(text)) => Some(text),
        _ => None,
    }
}

/// The operation that an object describes by its member `kind`: `fetch`
/// with a `url` and, as wished, a `method` (which is `GET` otherwise), a
/// `body` and `headers`; `db` with `conn` and `query`; `fs` with `path`.
/// Every one of these is a string, the headers an object of strings.
pub open spec fn spec_single_op(members: Seq<(Seq<char>, Json)>) -> Option<OpView> {
    match text_member(members, "kind"@) {
        None => None,
        Some(kind) => if kind == "fetch"@ {
            match text_member(members, "url"@) {
                Some(url) => Some(
                    OpView::Fetch {
                        url,
                        method: match text_member(members, "method"@) {
                            Some(method) => if method.len() == 0 {
                                "GET"@
                            } else {
                                method
                            },
                            None => "GET"@,
                        },
                        body: text_member(members, "body"@),
                        headers: match member(members, "headers"@) {
                            Some(Json::Object(headers)) => string_members(headers, headers.len()),
                            _ => Seq::empty(),
                        },
                    },
                ),
                None => None,
            }
        } else if kind == "db"@ {
            match (text_member(members, "conn"@), text_member(members, "query"@)) {
                (Some(conn), Some(query)) => Some(OpView::DbQuery { conn, query }),
                _ => None,
            }
        } else if kind == "fs"@ {
            match text_member(members, "path"@) {
                Some(path) => Some(OpView::FsRead { path }),
                None => None,
            }
        } else {
            None
        },
    }
}

/// The operation that a value describes: an object describes one
/// operation, an array of descriptions a batch of them in their order, and
/// nothing else describes one.
pub open spec fn spec_op(j: Json) -> Option<OpView>
    decreases j, 0nat,
{
    match j {
        Json::Object(members) => spec_single_op(members),
        Json::Array(items) => match spec_ops(items, items.len()) {
            Some(ops) => Some(OpView::Batch(ops)),
            None => None,
        },
        _ => None,
    }
}

/// The operations that the first `n` values describe, where each of them
/// describes one.
pub open spec fn spec_ops(items: Seq<Json>, n: nat) -> Option<Seq<OpView>>
    decreases items, n,
{
    if n == 0 || n > items.len() {
        Some(Seq::empty())
    } else {
        match (spec_ops(items, (n - 1) as nat), spec_op(items[n - 1])) {
            (Some(before), Some(op)) => Some(before.push(op)),
            _ => None,
        }
    }
}

proof fn lemma_ops_fail(items: Seq<Json>, n: nat, k: nat)
    requires
        1 <= n <= k <= items.len(),
        spec_ops(items, n) is None,
    ensures
        spec_ops(items, k) is None,
    decreases k,
{
    if n < k {
        lemma_ops_fail(items, n, (k - 1) as nat);
    }
}

/// The view of an optional operation.
pub open spec fn op_view(o: Option<TitanAsyncOp>) -> Option<OpView> {
    match o {
        Some(op) => Some(op@),
        None => None,
    }
}

fn text_of_member(members: &Vec<(String, JsonValue)>, key: &str) -> (r: Option<String>)
    ensures
        match r {
            Some(text) => text_member(members_view(members@), key@) == Some(text@),
            None => text_member(members_view(members@), key@) is None,
        },
{
    match get_member(members, key) {
        Some(JsonValue::String(text)) => Some(text.clone()),
        _ => None,
    }
}

fn single_op(members: &Vec<(String, JsonValue)>) -> (r: Option<TitanAsyncOp>)
    ensures
        op_view(r) == spec_single_op(members_view(members@)),
{
    let kind = match text_of_member(members, "kind") {
        Some(kind) => kind,
        None => {
            return None;
        },
    };
    if same_text(kind.as_str(), "fetch") {
        let url = match text_of_member(members, "url") {
            Some(url) => url,
            None => {
                return None;
            },
        };
        let method = match text_of_member(members, "method") {
            Some(method) => {
                let chars = chars_of(method.as_str());
                if chars.len() == 0 {
                    String::from_str("GET")
                } else {
                    method
                }
            },
            None => String::from_str("GET"),
        };
        let body = text_of_member(members, "body");
        let none: Vec<(String, String)> = Vec::new();
        assert(headers_view(none@) =~= Seq::empty());
        let headers = match get_member(members, "headers") {
            Some(value) => match value.as_members() {
                Some(entries) => collect_string_members(entries),
                None => none,
            },
            None => none,
        };
        Some(TitanAsyncOp::Fetch { url, method, body, headers })
    } else if same_text(kind.as_str(), "db") {
        match (text_of_member(members, "conn"), text_of_member(members, "query")) {
            (Some(conn), Some(query)) => Some(TitanAsyncOp::DbQuery { conn, query }),
            _ => None,
        }
    } else if same_text(kind.as_str(), "fs") {
        match text_of_member(members, "path") {
            Some(path) => Some(TitanAsyncOp::FsRead { path }),
            None => None,
        }
    } else {
        None
    }
}

fn batch_ops(items: &Vec<JsonValue>) -> (r: Option<Vec<TitanAsyncOp>>)
    ensures
        match r {
            Some(ops) => spec_ops(items_view(items@), items@.len()) == Some(ops_view(ops@)),
            None => spec_ops(items_view(items@), items@.len()) is None,
        },
    decreases items, 0nat,
{
    let ghost views = items_view(items@);
    let mut ops: Vec<TitanAsyncOp> = Vec::new();
    let mut i: usize = 0;
    assert(ops_view(ops@) =~= Seq::empty());
    while i < items.len()
        invariant
            i <= items.len(),
            views == items_view(items@),
            spec_ops(views, i as nat) == Some(ops_view(ops@)),
        decreases items.len() - i,
    {
        let ghost before = ops_view(ops@);
        match TitanAsyncOp::from_json(&items[i]) {
            Some(op) => {
                ops.push(op);
                assert(ops_view(ops@) =~= before.push(op@));
            },
            None => {
                proof {
                    lemma_ops_fail(views, i as nat + 1, items@.len());
                }
                return None;
            },
        }
        i = i + 1;
    }
    Some(ops)
}

impl TitanAsyncOp {
    /// The name of the kind of operation.
    pub open spec fn spec_kind(&self) -> Seq<char> {
        match self {
            TitanAsyncOp::Fetch { .. } => "fetch"@,
            TitanAsyncOp::DbQuery { .. } => "db"@,
            TitanAsyncOp::FsRead { .. } => "fs"@,
            TitanAsyncOp::Batch(_) => "batch"@,
        }
    }

    /// The name of the kind of operation: `fetch`, `db`, `fs` or `batch`.
    pub fn kind(&self) -> (r: &'static str)
        ensures
            r@ == self.spec_kind(),
    {
        match self {
            TitanAsyncOp::Fetch { .. } => "fetch",
            TitanAsyncOp::DbQuery { .. } => "db",
            TitanAsyncOp::FsRead { .. } => "fs",
            TitanAsyncOp::Batch(_) => "batch",
        }
    }

    /// The operation that a value describes: see [`spec_op`].
    pub fn from_json(value: &JsonValue) -> (r: Option<TitanAsyncOp>)
        ensures
            op_view(r) == spec_op(value@),
        decreases value, 1nat,
    {
        match value {
            JsonValue::Object(members) => {
                proof {
                    lemma_object_view(*members);
                }
                single_op(members)
            },
            JsonValue::Array(items) => {
                proof {
                    lemma_array_view(*items);
                }
                match batch_ops(items) {
                    Some(ops) => {
                        proof {
                            lemma_batch_view(ops);
                        }
                        Some(TitanAsyncOp::Batch(ops))
                    },
                    None => None,
                }
            },
            _ => None,
        }
    }
}

/// The record of an incoming request that every execution of its action
/// reads.
#[derive(Clone, Debug)]
pub struct RequestData {
    pub action_name: String,
    pub body: Option<bytes::Bytes>,
    pub method: String,
    pub path: String,
    pub headers: Vec<(String, String)>,
    pub params: Vec<(String, String)>,
    pub query: Vec<(String, String)>,
}

/// What the engine keeps of a request in flight.
#[derive(Debug)]
pub struct RequestRecord {
    /// The request as it came in.
    pub data: RequestData,
    /// The drift counter at the moment the request started.
    pub start: u32,
    /// The highest drift id that an execution of the request reached.
    pub high: u32,
    /// The completed drifts of the request: a label and a duration in
    /// microseconds each.
    pub timings: Vec<(String, u64)>,
}

/// What the engine keeps of a drift.
#[derive(Debug)]
pub struct DriftRecord {
    /// The request that issued the drift.
    pub request: u32,
    /// The memoized result, once the operation has completed.
    pub result: Option<JsonValue>,
}

/// The drift engine of one worker.
pub struct DriftEngine {
    request_counter: u32,
    drift_counter: u32,
    current: Option<u32>,
    requests: HashMap<u32, RequestRecord>,
    drifts: HashMap<u32, DriftRecord>,
}

/// The state of a [`DriftEngine`].
pub struct EngineView {
    /// The id given to the last request.
    pub request_counter: u32,
    /// The id given to the last drift of the execution under way.
    pub drift_counter: u32,
    /// The request whose action is being executed, or was executed last.
    pub current: Option<u32>,
    /// The requests in flight.
    pub requests: Map<u32, RequestRecord>,
    /// The drifts of the requests in flight.
    pub drifts: Map<u32, DriftRecord>,
}

impl View for DriftEngine {
    type V = EngineView;

    closed spec fn view(&self) -> EngineView {
        EngineView {
            request_counter: self.request_counter,
            drift_counter: self.drift_counter,
            current: self.current,
            requests: self.requests@,
            drifts: self.drifts@,
        }
    }
}

/// The invariant of the engine: the request under execution is in flight
/// and started at or before the drift counter; a request in flight has an
/// id that was given out and a range of drift ids; every drift belongs to a
/// request in flight and lies in that request's range.
pub open spec fn engine_wf(v: EngineView) -> bool {
    &&& v.current matches Some(r) ==> v.requests.contains_key(r) && v.requests[r].start
        <= v.drift_counter
    &&& forall|r: u32| #[trigger]
        v.requests.contains_key(r) ==> r <= v.request_counter && v.requests[r].start
            <= v.requests[r].high
    &&& forall|d: u32| #[trigger]
        v.drifts.contains_key(d) ==> v.requests.contains_key(v.drifts[d].request)
            && v.requests[v.drifts[d].request].start < d <= v.requests[v.drifts[d].request].high
}

/// Whether `v` is the state in which an execution of `request` begins: the
/// request is the current one and the drift counter stands at the
/// request's start.
pub open spec fn is_attempt_start(v: EngineView, request: u32) -> bool {
    &&& v.current == Some(request)
    &&& v.requests.contains_key(request)
    &&& v.drift_counter == v.requests[request].start
}

/// Whether a request in flight before and after kept its start.
pub open spec fn starts_kept(pre: EngineView, post: EngineView) -> bool {
    forall|r: u32| #[trigger]
        pre.requests.contains_key(r) && post.requests.contains_key(r) ==> post.requests[r].start
            == pre.requests[r].start
}

/// Whether `post` follows from `pre` by issuing the drift `id`: the id is
/// the next after the drift counter, which moves to it, and the current
/// request stays, with its start.
pub open spec fn is_issue_step(pre: EngineView, post: EngineView, id: u32) -> bool {
    &&& pre.current is Some
    &&& id == pre.drift_counter + 1
    &&& post.drift_counter == id
    &&& post.current == pre.current
    &&& post.requests.contains_key(pre.current->0)
    &&& post.requests[pre.current->0].start == pre.requests[pre.current->0].start
}

/// What the engine answers to a call of `drift`.
#[derive(Debug)]
pub enum DriftOutcome {
    /// The drift completed in an earlier execution: here is its result.
    Replay { drift_id: u32, value: JsonValue },
    /// The drift is met for the first time: the operation is to be handed
    /// to the executor under this id, and the action suspended.
    Suspend { drift_id: u32 },
    /// No request is under execution, or no drift id is left.
    Refused,
}

/// Whether `post` and `r` are what follows in `pre` from a call of `drift`.
/// Without a request under execution, or with no drift id left, the call
/// is refused and nothing changes. Otherwise the drift gets the next id
/// and belongs to the current request, whose highest id follows; where the
/// memo holds a result for that id the result is handed back, and
/// otherwise the action is to be suspended. No other request and no other
/// drift changes.
pub open spec fn is_drift_call(pre: EngineView, post: EngineView, r: DriftOutcome) -> bool {
    if pre.current is None || pre.drift_counter == u32::MAX {
        r is Refused && post == pre
    } else {
        let id = (pre.drift_counter + 1) as u32;
        let request = pre.current->0;
        let hit = pre.drifts.contains_key(id) && pre.drifts[id].result is Some;
        &&& is_issue_step(pre, post, id)
        &&& post.requests[request].data == pre.requests[request].data
        &&& post.requests[request].timings == pre.requests[request].timings
        &&& post.requests[request].high == if pre.requests[request].high < id {
            id
        } else {
            pre.requests[request].high
        }
        &&& forall|other: u32|
            other != request && pre.requests.contains_key(other) ==> post.requests[other]
                == pre.requests[other]
        &&& post.drifts.dom() == pre.drifts.dom().insert(id)
        &&& post.drifts[id].request == request
        &&& forall|other: u32|
            other != id && pre.drifts.contains_key(other) ==> post.drifts[other]
                == pre.drifts[other]
        &&& hit ==> post.drifts[id].result == pre.drifts[id].result && (r
            matches DriftOutcome::Replay { drift_id, value } && drift_id == id && Some(value@)
            == crate::json::value_view(pre.drifts[id].result))
        &&& !hit ==> post.drifts[id].result is None && r == (DriftOutcome::Suspend {
            drift_id: id,
        })
    }
}

/// Whether `post` and `r` are what follows in `pre` when the drift `drift`
/// completes with `result` after `micros` microseconds. A drift that the
/// engine does not keep changes nothing. Otherwise the result is memoized
/// and timed, and an execution of the request that issued the drift begins:
/// it is the current request, and the drift counter stands at its start.
/// No other request and no other drift changes.
pub open spec fn is_resume(
    pre: EngineView,
    post: EngineView,
    drift: u32,
    result: JsonValue,
    micros: u64,
    r: Option<u32>,
) -> bool {
    if !pre.drifts.contains_key(drift) {
        r is None && post == pre
    } else {
        let request = pre.drifts[drift].request;
        &&& r == Some(request)
        &&& is_attempt_start(post, request)
        &&& post.drifts.dom() == pre.drifts.dom()
        &&& post.drifts[drift].request == request
        &&& post.drifts[drift].result == Some(result)
        &&& forall|other: u32|
            other != drift && pre.drifts.contains_key(other) ==> post.drifts[other]
                == pre.drifts[other]
        &&& post.requests[request].data == pre.requests[request].data
        &&& post.requests[request].start == pre.requests[request].start
        &&& post.requests[request].high == pre.requests[request].high
        &&& post.requests[request].timings@.len() == pre.requests[request].timings@.len() + 1
        &&& forall|i: int|
            0 <= i < pre.requests[request].timings@.len()
                ==> post.requests[request].timings@[i] == pre.requests[request].timings@[i]
        &&& post.requests[request].timings@.last().0@ == timing_label(result@)
        &&& post.requests[request].timings@.last().1 == micros
        &&& forall|other: u32|
            other != request && pre.requests.contains_key(other) ==> post.requests[other]
                == pre.requests[other]
    }
}

/// The label under which a completed drift is timed: `drift_error` when
/// the result is an object with a member `error`, `drift` otherwise.
pub open spec fn timing_label(result: Json) -> Seq<char> {
    match result {
        Json::Object(members) => if member(members, "error"@) is Some {
            "drift_error"@
        } else {
            "drift"@
        },
        _ => "drift"@,
    }
}

/// The label under which the drift with this result is timed: see
/// [`timing_label`].
pub fn label_of(result: &JsonValue) -> (r: &'static str)
    ensures
        r@ == timing_label(result@),
{
    match result.as_members() {
        Some(members) => match crate::json::get_member(members, "error") {
            Some(_) => "drift_error",
            None => "drift",
        },
        None => "drift",
    }
}

impl DriftEngine {
    /// The invariant of the engine: see [`engine_wf`].
    pub open spec fn wf(&self) -> bool {
        engine_wf(self@)
    }

    /// An engine without requests, with both counters at zero.
    pub fn new() -> (r: DriftEngine)
        ensures
            r.wf(),
            r@.request_counter == 0,
            r@.drift_counter == 0,
            r@.current is None,
            r@.requests == Map::<u32, RequestRecord>::empty(),
            r@.drifts == Map::<u32, DriftRecord>::empty(),
    {
        DriftEngine {
            request_counter: 0,
            drift_counter: 0,
            current: None,
            requests: HashMap::new(),
            drifts: HashMap::new(),
        }
    }

    /// The id given to the last drift.
    pub fn drift_counter(&self) -> (r: u32)
        ensures
            r == self@.drift_counter,
    {
        self.drift_counter
    }

    /// The id given to the last request.
    pub fn request_counter(&self) -> (r: u32)
        ensures
            r == self@.request_counter,
    {
        self.request_counter
    }

    /// The request whose action is being executed, or was executed last.
    pub fn current_request(&self) -> (r: Option<u32>)
        ensures
            r == self@.current,
    {
        self.current
    }

    /// Whether the request is in flight.
    pub fn is_pending(&self, request: u32) -> (r: bool)
        ensures
            r == self@.requests.contains_key(request),
    {
        self.requests.contains_key(&request)
    }

    /// What the engine keeps of a request in flight.
    pub fn record(&self, request: u32) -> (r: Option<&RequestRecord>)
        ensures
            match r {
                Some(record) => self@.requests.contains_key(request) && *record
                    == self@.requests[request],
                None => !self@.requests.contains_key(request),
            },
    {
        self.requests.get(&request)
    }

    /// Whether the drift has a memoized result.
    pub fn is_completed(&self, drift: u32) -> (r: bool)
        ensures
            r == (self@.drifts.contains_key(drift) && self@.drifts[drift].result is Some),
    {
        match self.drifts.get(&drift) {
            Some(record) => record.result.is_some(),
            None => false,
        }
    }

    /// The number of drifts that the engine keeps.
    pub fn drift_count(&self) -> (r: usize)
        ensures
            r == self@.drifts.len(),
    {
        self.drifts.len()
    }

    /// Takes a new request in: it gets the next request id, becomes the
    /// current request, and starts at the present drift counter. `None`,
    /// with the engine unchanged, where no request id is left.
    pub fn begin_request(&mut self, data: RequestData) -> (r: Option<u32>)
        requires
            old(self).wf(),
        ensures
            final(self).wf(),
            starts_kept(old(self)@, final(self)@),
            match r {
                None => old(self)@.request_counter == u32::MAX && final(self)@ == old(self)@,
                Some(id) => {
                    &&& id == old(self)@.request_counter + 1
                    &&& final(self)@.request_counter == id
                    &&& final(self)@.drift_counter == old(self)@.drift_counter
                    &&& final(self)@.drifts == old(self)@.drifts
                    &&& is_attempt_start(final(self)@, id)
                    &&& final(self)@.requests.dom() == old(self)@.requests.dom().insert(id)
                    &&& final(self)@.requests[id].data == data
                    &&& final(self)@.requests[id].high == old(self)@.drift_counter
                    &&& final(self)@.requests[id].timings@.len() == 0
                    &&& forall|other: u32|
                        other != id && old(self)@.requests.contains_key(other)
                            ==> final(self)@.requests[other] == old(self)@.requests[other]
                },
            },
    {
        if self.request_counter == u32::MAX {
            return None;
        }
        let id = self.request_counter + 1;
        self.request_counter = id;
        self.current = Some(id);
        let record = RequestRecord {
            data,
            start: self.drift_counter,
            high: self.drift_counter,
            timings: Vec::new(),
        };
        self.requests.insert(id, record);
        assert(self@.requests.dom() =~= old(self)@.requests.dom().insert(id));
        Some(id)
    }

    /// Answers a call of `drift` in the current request: the drift gets the
    /// next drift id; where the memo holds a result for that id, the result
    /// is handed back, and otherwise the action is to be suspended.
    pub fn issue_drift(&mut self) -> (r: DriftOutcome)
        requires
            old(self).wf(),
        ensures
            final(self).wf(),
            starts_kept(old(self)@, final(self)@),
            final(self)@.request_counter == old(self)@.request_counter,
            final(self)@.current == old(self)@.current,
            final(self)@.requests.dom() == old(self)@.requests.dom(),
            is_drift_call(old(self)@, final(self)@, r),
    {
        let request = match self.current {
            Some(request) => request,
            None => {
                return DriftOutcome::Refused;
            },
        };
        if self.drift_counter == u32::MAX {
            return DriftOutcome::Refused;
        }
        let id = self.drift_counter + 1;
        self.drift_counter = id;
        let record = match self.requests.remove(&request) {
            Some(record) => record,
            None => {
                return DriftOutcome::Refused;
            },
        };
        let high = if record.high < id {
            id
        } else {
            record.high
        };
        self.requests.insert(
            request,
            RequestRecord { data: record.data, start: record.start, high, timings: record.timings },
        );
        assert(self@.requests.dom() =~= old(self)@.requests.dom());
        let outcome = match self.drifts.remove(&id) {
            Some(DriftRecord { request: _, result: Some(value) }) => {
                let copy = value.duplicate();
                self.drifts.insert(id, DriftRecord { request, result: Some(value) });
                DriftOutcome::Replay { drift_id: id, value: copy }
            },
            _ => {
                self.drifts.insert(id, DriftRecord { request, result: None });
                DriftOutcome::Suspend { drift_id: id }
            },
        };
        assert(self@.drifts.dom() =~= old(self)@.drifts.dom().insert(id));
        outcome
    }

    /// Takes the result of a completed drift in: the result is memoized and
    /// timed, the request that issued the drift becomes the current one,
    /// and the drift counter goes back to the request's start, so that the
    /// action can be executed again. Returns that request. A drift that the
    /// engine does not keep is ignored: `None`, with the engine unchanged.
    pub fn resume(&mut self, drift: u32, result: JsonValue, micros: u64) -> (r: Option<u32>)
        requires
            old(self).wf(),
        ensures
            final(self).wf(),
            starts_kept(old(self)@, final(self)@),
            final(self)@.request_counter == old(self)@.request_counter,
            final(self)@.requests.dom() == old(self)@.requests.dom(),
            final(self)@.drifts.dom() == old(self)@.drifts.dom(),
            is_resume(old(self)@, final(self)@, drift, result, micros, r),
    {
        let request = match self.drifts.get(&drift) {
            Some(record) => record.request,
            None => {
                return None;
            },
        };
        let record = match self.requests.remove(&request) {
            Some(record) => record,
            None => {
                return None;
            },
        };
        let mut timings = record.timings;
        timings.push((String::from_str(label_of(&result)), micros));
        self.drift_counter = record.start;
        self.current = Some(request);
        self.requests.insert(
            request,
            RequestRecord { data: record.data, start: record.start, high: record.high, timings },
        );
        self.drifts.insert(drift, DriftRecord { request, result: Some(result) });
        assert(self@.requests.dom() =~= old(self)@.requests.dom());
        assert(self@.drifts.dom() =~= old(self)@.drifts.dom());
        Some(request)
    }

    /// Takes a request out once its final value has been delivered: the
    /// request leaves the engine with all its drifts, memoized results
    /// included, and its timings are handed back. `None`, with the engine
    /// unchanged, where the request is not in flight.
    pub fn complete_request(&mut self, request: u32) -> (r: Option<Vec<(String, u64)>>)
        requires
            old(self).wf(),
        ensures
            final(self).wf(),
            starts_kept(old(self)@, final(self)@),
            final(self)@.request_counter == old(self)@.request_counter,
            final(self)@.drift_counter == old(self)@.drift_counter,
            !old(self)@.requests.contains_key(request) ==> r is None && final(self)@ == old(
                self,
            )@,
            old(self)@.requests.contains_key(request) ==> {
                &&& r == Some(old(self)@.requests[request].timings)
                &&& final(self)@.requests == old(self)@.requests.remove(request)
                &&& final(self)@.current == if old(self)@.current == Some(request) {
                    None
                } else {
                    old(self)@.current
                }
                &&& forall|d: u32|
                    final(self)@.drifts.contains_key(d) <==> old(self)@.drifts.contains_key(d)
                        && old(self)@.drifts[d].request != request
                &&& forall|d: u32| #[trigger]
                    final(self)@.drifts.contains_key(d) ==> final(self)@.drifts[d] == old(
                        self,
                    )@.drifts[d]
            },
    {
        let record = match self.requests.remove(&request) {
            Some(record) => record,
            None => {
                assert(self@.requests =~= old(self)@.requests);
                return None;
            },
        };
        if self.current == Some(request) {
            self.current = None;
        }
        let mut d: u32 = record.start;
        while d < record.high
            invariant
                record.start <= d <= record.high,
                record.start == old(self)@.requests[request].start,
                record.high == old(self)@.requests[request].high,
                old(self).wf(),
                old(self)@.requests.contains_key(request),
                self.requests@ == old(self)@.requests.remove(request),
                self.request_counter == old(self).request_counter,
                self.drift_counter == old(self).drift_counter,
                self.current == if old(self)@.current == Some(request) {
                    None::<u32>
                } else {
                    old(self)@.current
                },
                forall|k: u32|
                    self.drifts@.contains_key(k) <==> old(self)@.drifts.contains_key(k) && !(old(
                        self,
                    )@.drifts[k].request == request && k <= d),
                forall|k: u32| #[trigger]
                    self.drifts@.contains_key(k) ==> self.drifts@[k] == old(self)@.drifts[k],
            decreases record.high - d,
        {
            d = d + 1;
            let owned = match self.drifts.get(&d) {
                Some(entry) => entry.request == request,
                None => false,
            };
            if owned {
                self.drifts.remove(&d);
            }
        }
        Some(record.timings)
    }
}

/// The `n`-th drift of an execution of a request gets the id `n` after the
/// request's start: given the states of an execution, from its beginning
/// through each drift it issues, the drift ids are the consecutive numbers
/// that follow the start of the request.
pub proof fn lemma_drift_ids_contiguous(states: Seq<EngineView>, ids: Seq<u32>, request: u32)
    requires
        states.len() == ids.len() + 1,
        is_attempt_start(states[0], request),
        forall|i: int|
            0 <= i < ids.len() ==> is_issue_step(#[trigger] states[i], states[i + 1], ids[i]),
    ensures
        forall|i: int|
            0 <= i < ids.len() ==> #[trigger] ids[i] == states[0].requests[request].start + i + 1,
{
    lemma_attempt_counter(states, ids, request, ids.len() as int);
}

proof fn lemma_attempt_counter(states: Seq<EngineView>, ids: Seq<u32>, request: u32, n: int)
    requires
        states.len() == ids.len() + 1,
        is_attempt_start(states[0], request),
        forall|i: int|
            0 <= i < ids.len() ==> is_issue_step(#[trigger] states[i], states[i + 1], ids[i]),
        0 <= n <= ids.len(),
    ensures
        states[n].current == Some(request),
        states[n].requests.contains_key(request),
        states[n].requests[request].start == states[0].requests[request].start,
        states[n].drift_counter == states[0].requests[request].start + n,
        forall|i: int|
            0 <= i < n ==> #[trigger] ids[i] == states[0].requests[request].start + i + 1,
    decreases n,
{
    if n > 0 {
        lemma_attempt_counter(states, ids, request, n - 1);
        assert(is_issue_step(states[n - 1], states[n], ids[n - 1]));
    }
}

/// Every execution of a request issues the same drift ids in the same
/// order: two executions that begin at the same start of the request give
/// their `i`-th drift the same id.
pub proof fn lemma_replay_reissues_same_ids(
    first: Seq<EngineView>,
    first_ids: Seq<u32>,
    replay: Seq<EngineView>,
    replay_ids: Seq<u32>,
    request: u32,
)
    requires
        first.len() == first_ids.len() + 1,
        replay.len() == replay_ids.len() + 1,
        is_attempt_start(first[0], request),
        is_attempt_start(replay[0], request),
        replay[0].requests[request].start == first[0].requests[request].start,
        forall|i: int|
            0 <= i < first_ids.len() ==> is_issue_step(
                #[trigger] first[i],
                first[i + 1],
                first_ids[i],
            ),
        forall|i: int|
            0 <= i < replay_ids.len() ==> is_issue_step(
                #[trigger] replay[i],
                replay[i + 1],
                replay_ids[i],
            ),
    ensures
        forall|i: int|
            0 <= i < first_ids.len() && i < replay_ids.len() ==> #[trigger] first_ids[i]
                == replay_ids[i],
{
    lemma_drift_ids_contiguous(first, first_ids, request);
    lemma_drift_ids_contiguous(replay, replay_ids, request);
    assert forall|i: int| 0 <= i < first_ids.len() && i < replay_ids.len() implies #[trigger]
        first_ids[i] == replay_ids[i] by {
        assert(replay_ids[i] == replay[0].requests[request].start + i + 1);
    }
}

/// After the first drift of a request has completed, the next execution
/// of the request is handed the result at its first drift, without being
/// suspended, and is suspended at its second drift, which gets the id that
/// follows; the request stays in flight. This holds where the memo holds no
/// result under that second id: two requests in flight on one worker can
/// be given the same id, and a result of the other request would be
/// replayed.
pub proof fn lemma_replay_reaches_the_second_drift(
    states: Seq<EngineView>,
    first: u32,
    result: JsonValue,
    micros: u64,
    resumed: Option<u32>,
    at_first: DriftOutcome,
    at_second: DriftOutcome,
)
    requires
        states.len() == 4,
        engine_wf(states[0]),
        states[0].drifts.contains_key(first),
        first == states[0].requests[states[0].drifts[first].request].start + 1,
        first < u32::MAX,
        !(states[0].drifts.contains_key((first + 1) as u32) && states[0].drifts[(first
            + 1) as u32].result is Some),
        is_resume(states[0], states[1], first, result, micros, resumed),
        is_drift_call(states[1], states[2], at_first),
        is_drift_call(states[2], states[3], at_second),
    ensures
        resumed == Some(states[0].drifts[first].request),
        at_first matches DriftOutcome::Replay { drift_id, value } && drift_id == first && value@
            == result@,
        at_second == (DriftOutcome::Suspend { drift_id: (first + 1) as u32 }),
        states[3].requests.contains_key(states[0].drifts[first].request),
        states[3].drifts[(first + 1) as u32].request == states[0].drifts[first].request,
        states[3].drifts[(first + 1) as u32].result is None,
{
    let request = states[0].drifts[first].request;
    assert(states[0].requests.contains_key(request));
    assert(is_attempt_start(states[1], request));
    assert(states[1].drift_counter + 1 == first);
    assert(states[1].drifts.contains_key(first));
    assert(is_issue_step(states[1], states[2], first));
    assert(states[2].drift_counter == first);
    if states[0].drifts.contains_key((first + 1) as u32) {
        assert(states[1].drifts[(first + 1) as u32] == states[0].drifts[(first + 1) as u32]);
        assert(states[1].drifts.contains_key((first + 1) as u32));
        assert(states[2].drifts[(first + 1) as u32] == states[1].drifts[(first + 1) as u32]);
    }
}

} // verus!
