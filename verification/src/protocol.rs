//! The JSON-RPC protocol: request checking, dispatch, and the versioned
//! snapshot and delta notifications of a subscription.
use vstd::prelude::*;
use vstd::pervasive::VecAdditionalExecFns;

use crate::delta::{is_patch_of, is_snapshot_delta, snapshot_delta};
use crate::error::{error_text, SnapshotError};
use crate::json::{get_member, json_parse, member, member_index, parse_json, JsonValue};
use crate::model::{ConflictSummary, RepositorySnapshot, Same, SnapshotDelta, SnapshotOptions, SnapshotPatch};
use crate::git::{IndexFlags, StatusItem, StatusListing};
use crate::read::{is_path_state_of, status_paths};
use crate::snapshot::{is_read_snapshot, snapshot_repository, snapshot_repository_with_options, snapshot_status_request};
use crate::text::{own, str_eq, text_set};
use crate::Capabilities;

verus! {

/// The request could not be parsed as JSON.
pub const PARSE_ERROR: i64 = -32700;

/// The request is not a valid JSON-RPC request.
pub const INVALID_REQUEST: i64 = -32600;

/// The request's parameters are not valid for its method.
pub const INVALID_PARAMS: i64 = -32602;

/// The method is not offered.
pub const METHOD_NOT_FOUND: i64 = -32601;

/// The request failed inside the worker.
pub const INTERNAL_ERROR: i64 = -32603;

/// The error member of a response.
#[derive(Debug, Clone, PartialEq, Eq)]
pub struct ErrorObject {
    pub code: i64,
    pub message: String,
    pub data: Option<String>,
}

/// The parameters of the notification sent before the worker exits.
#[derive(Debug, Clone, PartialEq, Eq)]
pub struct GoodbyeParams {
    pub reason: String,
}

/// A full snapshot with the version it was recorded under.
#[derive(Debug, Clone, PartialEq, Eq)]
pub struct SnapshotNotificationParams {
    pub version: u64,
    pub snapshot: RepositorySnapshot,
}

/// A delta from the snapshot recorded under `previous_version` to the one
/// recorded under `version`, with the changed sections.
#[derive(Debug, Clone, PartialEq, Eq)]
pub struct DeltaNotificationParams {
    pub previous_version: u64,
    pub version: u64,
    pub delta: SnapshotDelta,
    pub patch: SnapshotPatch,
}

/// The result member of a successful response.
#[derive(Debug, Clone, PartialEq, Eq)]
pub enum ResponseResult {
    Capabilities(Capabilities),
    Snapshot(RepositorySnapshot),
    Refresh(SnapshotNotificationParams),
    Subscription { subscribed: bool },
}

/// A response to a request.
#[derive(Debug, PartialEq, Eq)]
pub struct JsonRpcResponse {
    pub jsonrpc: String,
    pub result: Option<ResponseResult>,
    pub error: Option<ErrorObject>,
    pub id: JsonValue,
}

/// The parameters of a notification.
#[derive(Debug, Clone, PartialEq, Eq)]
pub enum NotificationParams {
    Snapshot(SnapshotNotificationParams),
    Delta(DeltaNotificationParams),
    Goodbye(GoodbyeParams),
}

/// A notification from the worker.
#[derive(Debug, Clone, PartialEq, Eq)]
pub struct JsonRpcNotification {
    pub jsonrpc: String,
    pub method: String,
    pub params: Option<NotificationParams>,
}

/// A message the worker writes.
#[derive(Debug, PartialEq, Eq)]
pub enum ServerMessage {
    Response(JsonRpcResponse),
    Notification(JsonRpcNotification),
}

/// A request that passed the checks.
#[derive(Debug, PartialEq, Eq)]
pub struct JsonRpcRequest {
    pub jsonrpc: String,
    pub method: String,
    pub params: Option<JsonValue>,
    pub id: Option<JsonValue>,
}

/// The state of a worker process: its repository, whether a client has
/// subscribed, and the snapshot and version last recorded for it.
#[derive(Debug, Clone, PartialEq, Eq)]
pub struct ProcessState {
    repo: String,
    subscribed: bool,
    latest_snapshot: Option<RepositorySnapshot>,
    latest_version: u64,
}

impl ProcessState {
    /// The repository path.
    pub closed spec fn repo_text(&self) -> Seq<char> {
        self.repo@
    }

    /// Whether a client has subscribed.
    pub closed spec fn subscribed_flag(&self) -> bool {
        self.subscribed
    }

    /// The snapshot last recorded.
    pub closed spec fn latest(&self) -> Option<RepositorySnapshot> {
        self.latest_snapshot
    }

    /// The version last given out.
    pub closed spec fn version(&self) -> u64 {
        self.latest_version
    }

    /// The state of a new process for the repository at `repo`: not
    /// subscribed, no snapshot recorded, version zero.
    pub fn new(repo: String) -> (r: ProcessState)
        ensures
            r.repo_text() == repo@,
            !r.subscribed_flag(),
            r.latest() is None,
            r.version() == 0,
    {
        ProcessState { repo, subscribed: false, latest_snapshot: None, latest_version: 0 }
    }

    /// The repository path.
    pub fn repo(&self) -> (r: &str)
        ensures
            r@ == self.repo_text(),
    {
        self.repo.as_str()
    }

    /// Whether a client has subscribed.
    pub fn is_subscribed(&self) -> (r: bool)
        ensures
            r == self.subscribed_flag(),
    {
        self.subscribed
    }

    /// The snapshot last recorded.
    pub fn latest_snapshot(&self) -> (r: Option<&RepositorySnapshot>)
        ensures
            r is None <==> self.latest() is None,
            r matches Some(s) ==> self.latest() == Some(*s),
    {
        match &self.latest_snapshot {
            Some(s) => Some(s),
            None => None,
        }
    }

    /// The version last given out.
    pub fn latest_version(&self) -> (r: u64)
        ensures
            r == self.version(),
    {
        self.latest_version
    }

    /// Sets the subscription flag.
    fn set_subscribed(&mut self, subscribed: bool)
        ensures
            final(self).subscribed_flag() == subscribed,
            final(self).repo_text() == old(self).repo_text(),
            final(self).latest() == old(self).latest(),
            final(self).version() == old(self).version(),
    {
        self.subscribed = subscribed;
    }

    /// Takes the next version.
    fn next_version(&mut self) -> (v: u64)
        requires
            old(self).version() < u64::MAX,
        ensures
            v == old(self).version() + 1,
            final(self).version() == v,
            final(self).repo_text() == old(self).repo_text(),
            final(self).subscribed_flag() == old(self).subscribed_flag(),
            final(self).latest() == old(self).latest(),
    {
        self.latest_version = self.latest_version + 1;
        self.latest_version
    }

    /// Records a full snapshot under the next version.
    pub fn record_baseline(&mut self, snapshot: RepositorySnapshot) -> (r: SnapshotNotificationParams)
        requires
            old(self).version() < u64::MAX,
        ensures
            is_baseline_record(*old(self), *final(self), snapshot, r),
    {
        let version = self.next_version();
        let copy = snapshot.duplicate();
        self.latest_snapshot = Some(snapshot);
        SnapshotNotificationParams { version, snapshot: copy }
    }

    /// Records a snapshot read on an explicit refresh, as a new baseline.
    pub fn record_refresh(&mut self, snapshot: RepositorySnapshot) -> (r: SnapshotNotificationParams)
        requires
            old(self).version() < u64::MAX,
        ensures
            is_baseline_record(*old(self), *final(self), snapshot, r),
    {
        self.record_baseline(snapshot)
    }

    /// Records a snapshot read after a change. Without a recorded snapshot it
    /// becomes the baseline and nothing is sent. When nothing changed it
    /// replaces the recorded one under the same version. Otherwise the delta
    /// from the recorded snapshot goes out under the next version, with the
    /// changed sections.
    pub fn record_update(&mut self, snapshot: RepositorySnapshot) -> (r: Option<DeltaNotificationParams>)
        requires
            old(self).version() < u64::MAX,
        ensures
            final(self).latest() == Some(snapshot),
            final(self).repo_text() == old(self).repo_text(),
            final(self).subscribed_flag() == old(self).subscribed_flag(),
            match old(self).latest() {
                None => r is None && final(self).version() == old(self).version() + 1,
                Some(p) => match r {
                    None => final(self).version() == old(self).version() && exists|d: SnapshotDelta|
                        #[trigger] is_snapshot_delta(d, p, snapshot) && !d.changes(),
                    Some(x) => {
                        &&& x.previous_version == old(self).version()
                        &&& x.version == old(self).version() + 1
                        &&& final(self).version() == x.version
                        &&& is_snapshot_delta(x.delta, p, snapshot)
                        &&& x.delta.changes()
                        &&& is_patch_of(x.patch, snapshot, x.delta)
                    },
                },
            },
    {
        let delta = match &self.latest_snapshot {
            None => {
                self.record_baseline(snapshot);
                return None;
            },
            Some(previous) => snapshot_delta(previous, &snapshot),
        };
        if !delta.has_changes() {
            self.latest_snapshot = Some(snapshot);
            return None;
        }
        let previous_version = self.latest_version;
        let version = self.next_version();
        let patch = SnapshotPatch::from_delta(&snapshot, &delta);
        self.latest_snapshot = Some(snapshot);
        Some(DeltaNotificationParams { previous_version, version, delta, patch })
    }
}

/// `e` is an error object with the given code, message and data.
pub open spec fn is_error_object(e: ErrorObject, code: i64, message: Seq<char>, data: Option<Seq<char>>) -> bool {
    &&& e.code == code
    &&& e.message@ == message
    &&& match data {
        Some(d) => e.data is Some && e.data->0@ == d,
        None => e.data is None,
    }
}

/// `r` is an error response to `id`.
pub open spec fn is_error_response(
    r: JsonRpcResponse,
    id: JsonValue,
    code: i64,
    message: Seq<char>,
    data: Option<Seq<char>>,
) -> bool {
    &&& r.jsonrpc@ == "2.0"@
    &&& r.result is None
    &&& r.error matches Some(e) && is_error_object(e, code, message, data)
    &&& r.id == id
}

/// `r` is a successful response to `id`.
pub open spec fn is_success_response(r: JsonRpcResponse, id: JsonValue) -> bool {
    &&& r.jsonrpc@ == "2.0"@
    &&& r.result is Some
    &&& r.error is None
    &&& r.id == id
}

fn error_object(code: i64, message: &str, data: Option<String>) -> (r: ErrorObject)
    ensures
        r.code == code,
        r.message@ == message@,
        r.data == data,
{
    ErrorObject { code, message: own(message), data }
}

/// An error response to `id`.
pub fn error_response(id: JsonValue, code: i64, message: &str, data: Option<String>) -> (r: JsonRpcResponse)
    ensures
        r.jsonrpc@ == "2.0"@,
        r.result is None,
        r.error matches Some(e) && e.code == code && e.message@ == message@ && e.data == data,
        r.id == id,
{
    JsonRpcResponse { jsonrpc: own("2.0"), result: None, error: Some(error_object(code, message, data)), id }
}

/// A successful response to `id`.
pub fn success_response(id: JsonValue, result: ResponseResult) -> (r: JsonRpcResponse)
    ensures
        is_success_response(r, id),
        r.result == Some(result),
{
    JsonRpcResponse { jsonrpc: own("2.0"), result: Some(result), error: None, id }
}

/// A request id is a string, a number or null.
pub open spec fn valid_id(v: JsonValue) -> bool {
    v is Null || v is Str || v is Number
}

fn is_valid_id(v: &JsonValue) -> (r: bool)
    ensures
        r == valid_id(*v),
{
    match v {
        JsonValue::Null => true,
        JsonValue::Str(_) => true,
        JsonValue::Number(_) => true,
        _ => false,
    }
}

/// Parameters are an object, an array or null.
pub open spec fn valid_params(v: JsonValue) -> bool {
    v is Null || v is Object || v is Array
}

/// The outcome of checking a parsed request: its method, parameters and id,
/// and whether it is a notification (it has no id); or the id to answer and
/// the reason it was refused.
pub open spec fn request_shape(v: JsonValue) -> Result<
    (Seq<char>, Option<JsonValue>, Option<JsonValue>, bool),
    (JsonValue, Seq<char>),
> {
    match v {
        JsonValue::Object(fields) => {
            let f = fields@;
            let id = member(f, "id"@);
            let response_id = match id {
                Some(i) => if valid_id(i) {
                    i
                } else {
                    JsonValue::Null
                },
                None => JsonValue::Null,
            };
            if !(member(f, "jsonrpc"@) matches Some(JsonValue::Str(s)) && s@ == "2.0"@) {
                Err((response_id, "jsonrpc must be exactly \"2.0\""@))
            } else if !(member(f, "method"@) matches Some(JsonValue::Str(_))) {
                Err((response_id, "method must be a string"@))
            } else if id matches Some(i) && !valid_id(i) {
                Err((JsonValue::Null, "id must be a string, number, or null"@))
            } else if member(f, "params"@) matches Some(p) && !valid_params(p) {
                Err((response_id, "params must be an object, array, or null"@))
            } else {
                let method = match member(f, "method"@) {
                    Some(JsonValue::Str(m)) => m@,
                    _ => Seq::empty(),
                };
                Ok((method, member(f, "params"@), id, id is None))
            }
        },
        _ => Err((JsonValue::Null, "JSON-RPC requests must be objects"@)),
    }
}

fn invalid_request(id: JsonValue, detail: &str) -> (r: JsonRpcResponse)
    ensures
        is_error_response(r, id, INVALID_REQUEST, "invalid request"@, Some(detail@)),
{
    error_response(id, INVALID_REQUEST, "invalid request", Some(own(detail)))
}

/// Takes the value of member `i` out of an object, leaving null behind.
fn take_value(fields: &mut Vec<(String, JsonValue)>, i: usize) -> (r: JsonValue)
    requires
        i < old(fields)@.len(),
    ensures
        r == old(fields)@[i as int].1,
        final(fields)@.len() == old(fields)@.len(),
        forall|j: int| 0 <= j < old(fields)@.len() && j != i ==> final(fields)@[j] == old(fields)@[j],
{
    let mut slot: (String, JsonValue) = (String::new(), JsonValue::Null);
    fields.set_and_swap(i, &mut slot);
    slot.1
}

/// Checks a parsed request: a request to dispatch and whether it is a
/// notification, or the response that refuses it.
pub fn check_request(value: JsonValue) -> (r: Result<(JsonRpcRequest, bool), JsonRpcResponse>)
    ensures
        match request_shape(value) {
            Ok((method, params, id, notification)) => r matches Ok((q, n)) && {
                &&& q.jsonrpc@ == "2.0"@
                &&& q.method@ == method
                &&& q.params == params
                &&& q.id == id
                &&& n == notification
            },
            Err((id, detail)) => r matches Err(resp) && is_error_response(
                resp,
                id,
                INVALID_REQUEST,
                "invalid request"@,
                Some(detail),
            ),
        },
{
    let mut fields = match value {
        JsonValue::Object(fields) => fields,
        _ => return Err(invalid_request(JsonValue::Null, "JSON-RPC requests must be objects")),
    };
    let ghost f = fields@;
    let id_at = member_index(&fields, "id");
    let params_at = member_index(&fields, "params");
    let is_notification = id_at.is_none();
    let id_valid = match id_at {
        Some(i) => is_valid_id(&fields[i].1),
        None => true,
    };
    let jsonrpc_ok = match get_member(&fields, "jsonrpc") {
        Some(JsonValue::Str(s)) => str_eq(s.as_str(), "2.0"),
        _ => false,
    };
    let method = match get_member(&fields, "method") {
        Some(JsonValue::Str(m)) => Some(m.clone()),
        _ => None,
    };
    let params_ok = match params_at {
        Some(i) => match &fields[i].1 {
            JsonValue::Null => true,
            JsonValue::Object(_) => true,
            JsonValue::Array(_) => true,
            _ => false,
        },
        None => true,
    };
    proof {
        reveal_strlit("id");
        reveal_strlit("params");
        assert("id"@.len() == 2 && "params"@.len() == 6);
        assert("id"@ != "params"@);
    }
    let response_id = if !jsonrpc_ok || method.is_none() || !params_ok {
        match id_at {
            Some(i) => if id_valid {
                take_value(&mut fields, i)
            } else {
                JsonValue::Null
            },
            None => JsonValue::Null,
        }
    } else {
        JsonValue::Null
    };
    if !jsonrpc_ok {
        return Err(invalid_request(response_id, "jsonrpc must be exactly \"2.0\""));
    }
    let method = match method {
        Some(m) => m,
        None => return Err(invalid_request(response_id, "method must be a string")),
    };
    if !id_valid {
        return Err(invalid_request(JsonValue::Null, "id must be a string, number, or null"));
    }
    if !params_ok {
        return Err(invalid_request(response_id, "params must be an object, array, or null"));
    }
    let params = match params_at {
        Some(i) => Some(take_value(&mut fields, i)),
        None => None,
    };
    let ghost after_params = fields@;
    let id = match id_at {
        Some(i) => Some(take_value(&mut fields, i)),
        None => None,
    };
    assert(id_at matches Some(i) ==> i < f.len() && after_params[i as int] == f[i as int]);
    Ok((JsonRpcRequest { jsonrpc: own("2.0"), method, params, id }, is_notification))
}

/// Whether ignored paths are asked for: `None` when the parameters are not
/// valid snapshot parameters. Absent or null parameters ask for the default;
/// an object may set a boolean `includeIgnored`; an array may hold at most
/// that one boolean.
pub open spec fn include_ignored_of(params: Option<JsonValue>) -> Option<bool> {
    match params {
        None => Some(false),
        Some(JsonValue::Null) => Some(false),
        Some(JsonValue::Object(fields)) => match member(fields@, "includeIgnored"@) {
            None => Some(false),
            Some(JsonValue::Bool(b)) => Some(b),
            Some(_) => None,
        },
        Some(JsonValue::Array(items)) => if items@.len() == 0 {
            Some(false)
        } else if items@.len() == 1 {
            match items@[0] {
                JsonValue::Bool(b) => Some(b),
                _ => None,
            }
        } else {
            None
        },
        Some(_) => None,
    }
}

/// The snapshot options that the parameters of a snapshot request ask for,
/// or the invalid-parameters error.
pub fn snapshot_options(params: &Option<JsonValue>) -> (r: Result<SnapshotOptions, ErrorObject>)
    ensures
        match include_ignored_of(*params) {
            Some(b) => r == Ok::<SnapshotOptions, ErrorObject>(SnapshotOptions { include_ignored: b }),
            None => r matches Err(e) && e.code == INVALID_PARAMS && e.message@ == "invalid snapshot params"@
                && e.data is Some,
        },
{
    let value = match params {
        None => return Ok(SnapshotOptions { include_ignored: false }),
        Some(v) => v,
    };
    let found = match value {
        JsonValue::Null => Some(false),
        JsonValue::Object(fields) => match get_member(fields, "includeIgnored") {
            None => Some(false),
            Some(JsonValue::Bool(b)) => Some(*b),
            Some(_) => None,
        },
        JsonValue::Array(items) => {
            if items.len() == 0 {
                Some(false)
            } else if items.len() == 1 {
                match &items[0] {
                    JsonValue::Bool(b) => Some(*b),
                    _ => None,
                }
            } else {
                None
            }
        },
        _ => None,
    };
    match found {
        Some(b) => Ok(SnapshotOptions { include_ignored: b }),
        None => Err(
            error_object(
                INVALID_PARAMS,
                "invalid snapshot params",
                Some(own("snapshot params must set includeIgnored to a boolean")),
            ),
        ),
    }
}

/// The response to a snapshot request, for what reading the snapshot gave.
pub fn snapshot_response(id: JsonValue, read: Result<RepositorySnapshot, SnapshotError>) -> (r: JsonRpcResponse)
    ensures
        match read {
            Ok(s) => is_success_response(r, id) && r.result == Some(ResponseResult::Snapshot(s)),
            Err(e) => is_error_response(r, id, INTERNAL_ERROR, "repository snapshot failed"@, Some(error_text(e))),
        },
{
    match read {
        Ok(s) => success_response(id, ResponseResult::Snapshot(s)),
        Err(e) => error_response(id, INTERNAL_ERROR, "repository snapshot failed", Some(e.describe())),
    }
}

/// The response to a refresh request, for what reading the snapshot gave: a
/// snapshot read is recorded as the new baseline under the next version.
pub fn refresh_response(state: &mut ProcessState, id: JsonValue, read: Result<RepositorySnapshot, SnapshotError>) -> (r: JsonRpcResponse)
    requires
        old(state).version() < u64::MAX,
    ensures
        final(state).repo_text() == old(state).repo_text(),
        final(state).subscribed_flag() == old(state).subscribed_flag(),
        match read {
            Ok(s) => {
                &&& is_success_response(r, id)
                &&& r.result matches Some(ResponseResult::Refresh(p)) && p.version == old(state).version() + 1
                    && p.snapshot.same(&s)
                &&& final(state).version() == old(state).version() + 1
                &&& final(state).latest() == Some(s)
            },
            Err(e) => {
                &&& is_error_response(r, id, INTERNAL_ERROR, "repository snapshot failed"@, Some(error_text(e)))
                &&& final(state).version() == old(state).version()
                &&& final(state).latest() == old(state).latest()
            },
        },
{
    match read {
        Ok(s) => {
            let params = state.record_refresh(s);
            success_response(id, ResponseResult::Refresh(params))
        },
        Err(e) => error_response(id, INTERNAL_ERROR, "repository snapshot failed", Some(e.describe())),
    }
}

/// A notification with the given method and parameters.
pub fn notification(method: &str, params: NotificationParams) -> (r: ServerMessage)
    ensures
        r matches ServerMessage::Notification(n) && n.jsonrpc@ == "2.0"@ && n.method@ == method@ && n.params
            == Some(params),
{
    ServerMessage::Notification(JsonRpcNotification { jsonrpc: own("2.0"), method: own(method), params: Some(params) })
}

/// `m` is the snapshot notification of `s` under `version`.
pub open spec fn is_snapshot_notification(m: ServerMessage, version: u64, s: RepositorySnapshot) -> bool {
    match m {
        ServerMessage::Notification(n) => n.method@ == "gitseer/snapshot"@ && match n.params {
            Some(NotificationParams::Snapshot(p)) => p.version == version && p.snapshot.same(&s),
            _ => false,
        },
        _ => false,
    }
}

/// `resp` records a refresh: the snapshot now held, under the next version.
pub open spec fn is_refresh_result(resp: JsonRpcResponse, old_state: ProcessState, new_state: ProcessState) -> bool {
    &&& resp.error is None
    &&& new_state.version() == old_state.version() + 1
    &&& match (resp.result, new_state.latest()) {
        (Some(ResponseResult::Refresh(p)), Some(l)) => p.version == new_state.version() && p.snapshot.same(&l),
        _ => false,
    }
}

/// The messages answering a subscription, for what reading the snapshot
/// gave: the subscription is on; the response says so; a snapshot read is
/// recorded as the baseline under the next version and sent.
pub fn subscribe_messages(state: &mut ProcessState, id: JsonValue, read: Result<RepositorySnapshot, SnapshotError>) -> (r: Vec<ServerMessage>)
    requires
        old(state).version() < u64::MAX,
    ensures
        final(state).subscribed_flag(),
        final(state).repo_text() == old(state).repo_text(),
        r@.len() >= 1,
        r@[0] matches ServerMessage::Response(resp) && is_success_response(resp, id) && resp.result == Some(
            ResponseResult::Subscription { subscribed: true },
        ),
        match read {
            Ok(s) => {
                &&& r@.len() == 2
                &&& is_snapshot_notification(r@[1], (old(state).version() + 1) as u64, s)
                &&& final(state).version() == old(state).version() + 1
                &&& final(state).latest() == Some(s)
            },
            Err(_) => {
                &&& r@.len() == 1
                &&& final(state).version() == old(state).version()
                &&& final(state).latest() == old(state).latest()
            },
        },
{
    state.set_subscribed(true);
    let mut messages: Vec<ServerMessage> = Vec::new();
    messages.push(ServerMessage::Response(success_response(id, ResponseResult::Subscription { subscribed: true })));
    match read {
        Ok(s) => {
            let params = state.record_baseline(s);
            messages.push(notification("gitseer/snapshot", NotificationParams::Snapshot(params)));
        },
        Err(_) => {},
    }
    messages
}

/// The messages that go out for a request: all of them, or for a
/// notification only the notifications among them.
pub open spec fn delivered(messages: Seq<ServerMessage>, is_notification: bool) -> Seq<ServerMessage> {
    if is_notification {
        messages.filter(|m: ServerMessage| m is Notification)
    } else {
        messages
    }
}

/// Drops the responses when the request was a notification.
pub fn response_messages(messages: Vec<ServerMessage>, is_notification: bool) -> (r: Vec<ServerMessage>)
    ensures
        r@ == delivered(messages@, is_notification),
{
    if !is_notification {
        return messages;
    }
    let ghost orig = messages@;
    let mut rest = messages;
    let mut out: Vec<ServerMessage> = Vec::new();
    let ghost f = |m: ServerMessage| m is Notification;
    let ghost mut taken: int = 0;
    assert(orig.subrange(0, 0).filter(f) =~= Seq::<ServerMessage>::empty());
    while rest.len() > 0
        invariant
            orig == messages@,
            f == (|m: ServerMessage| m is Notification),
            0 <= taken <= orig.len(),
            rest@ == orig.subrange(taken, orig.len() as int),
            out@ == orig.subrange(0, taken).filter(f),
        decreases rest.len(),
    {
        assert(taken < orig.len());
        let m = rest.remove(0);
        proof {
            assert(orig.subrange(0, taken + 1).drop_last() =~= orig.subrange(0, taken));
            assert(orig.subrange(0, taken + 1).last() == m);
            reveal(Seq::filter);
        }
        match m {
            ServerMessage::Notification(n) => {
                out.push(ServerMessage::Notification(n));
            },
            ServerMessage::Response(_) => {},
        }
        proof {
            taken = taken + 1;
        }
        assert(rest@ =~= orig.subrange(taken, orig.len() as int));
    }
    assert(orig.subrange(0, orig.len() as int) =~= orig);
    out
}

/// What dispatching a checked request did: the messages before the
/// notification filter, by method. Snapshot requests answer with what
/// reading gave; subscribing turns the subscription on and unsubscribing
/// turns it off; every other method leaves the state alone.
pub open spec fn is_dispatch_outcome(
    old_state: ProcessState,
    new_state: ProcessState,
    method: Seq<char>,
    params: Option<JsonValue>,
    id: JsonValue,
    messages: Seq<ServerMessage>,
) -> bool {
    &&& new_state.repo_text() == old_state.repo_text()
    &&& if method == "gitseer/subscribe"@ {
        &&& new_state.subscribed_flag()
        &&& messages.len() >= 1
        &&& messages[0] matches ServerMessage::Response(resp) && is_success_response(resp, id)
            && resp.result == Some(ResponseResult::Subscription { subscribed: true })
        &&& messages.len() <= 2
        &&& (new_state.version() == old_state.version() || new_state.version() == old_state.version() + 1)
        &&& (messages.len() == 2 <==> new_state.version() == old_state.version() + 1)
        &&& messages.len() == 2 ==> (new_state.latest() matches Some(l) && is_snapshot_notification(
            messages[1],
            new_state.version(),
            l,
        ) && is_read_snapshot(l, false))
        &&& messages.len() == 1 ==> new_state.latest() == old_state.latest()
    } else {
        &&& messages.len() == 1
        &&& messages[0] matches ServerMessage::Response(resp) && resp.id == id && resp.jsonrpc@ == "2.0"@
            && if method == "gitseer/unsubscribe"@ {
            &&& !new_state.subscribed_flag()
            &&& new_state.version() == old_state.version()
            &&& new_state.latest() == old_state.latest()
            &&& is_success_response(resp, id)
            &&& resp.result == Some(ResponseResult::Subscription { subscribed: false })
        } else {
            &&& new_state.subscribed_flag() == old_state.subscribed_flag()
            &&& if method == "initialize"@ {
                &&& new_state.version() == old_state.version()
                &&& new_state.latest() == old_state.latest()
                &&& is_success_response(resp, id)
                &&& resp.result matches Some(ResponseResult::Capabilities(c)) && crate::is_current_capabilities(c)
            } else if method == "gitseer/getSnapshot"@ {
                &&& new_state.version() == old_state.version()
                &&& new_state.latest() == old_state.latest()
                &&& match include_ignored_of(params) {
                    None => resp.error matches Some(e) && e.code == INVALID_PARAMS && e.message@
                        == "invalid snapshot params"@ && resp.result is None,
                    Some(b) => (resp.result matches Some(ResponseResult::Snapshot(s)) && resp.error is None
                        && is_read_snapshot(s, b)) || (resp.error matches Some(e) && e.code == INTERNAL_ERROR
                        && resp.result is None),
                }
            } else if method == "gitseer/refresh"@ {
                match include_ignored_of(params) {
                    None => {
                        &&& resp.error matches Some(e) && e.code == INVALID_PARAMS && e.message@
                            == "invalid snapshot params"@ && resp.result is None
                        &&& new_state.version() == old_state.version()
                        &&& new_state.latest() == old_state.latest()
                    },
                    Some(b) => {
                        ||| is_refresh_result(resp, old_state, new_state) && (new_state.latest() matches Some(l)
                            && is_read_snapshot(l, b))
                        ||| resp.error matches Some(e) && e.code == INTERNAL_ERROR && resp.result is None
                            && new_state.version() == old_state.version() && new_state.latest()
                            == old_state.latest()
                    },
                }
            } else if method == "OpenRepository"@ || method == "CloseRepository"@ {
                &&& new_state.version() == old_state.version()
                &&& new_state.latest() == old_state.latest()
                &&& is_error_response(
                    resp,
                    id,
                    METHOD_NOT_FOUND,
                    "multi-repository service mode is not supported"@,
                    None,
                )
            } else {
                &&& new_state.version() == old_state.version()
                &&& new_state.latest() == old_state.latest()
                &&& is_error_response(resp, id, METHOD_NOT_FOUND, "method not found"@, None)
            }
        }
    }
}

/// `m` is a response reporting an unknown method.
pub open spec fn answers_method_not_found(m: ServerMessage) -> bool {
    m matches ServerMessage::Response(r) && r.error matches Some(e) && e.code == METHOD_NOT_FOUND
}

/// A method that the protocol lists is never answered as unknown: none of
/// the messages that dispatching it gives reports the method-not-found error.
pub proof fn lemma_listed_methods_are_found(
    p: crate::ProtocolCapabilities,
    old_state: ProcessState,
    new_state: ProcessState,
    method: Seq<char>,
    params: Option<JsonValue>,
    id: JsonValue,
    messages: Seq<ServerMessage>,
)
    requires
        crate::is_current_protocol(p),
        crate::texts(p.methods@).contains(method),
        is_dispatch_outcome(old_state, new_state, method, params, id, messages),
    ensures
        forall|i: int| 0 <= i < messages.len() ==> !answers_method_not_found(#[trigger] messages[i]),
{
    reveal_strlit("initialize");
    reveal_strlit("gitseer/getSnapshot");
    reveal_strlit("gitseer/refresh");
    reveal_strlit("gitseer/subscribe");
    reveal_strlit("gitseer/unsubscribe");
    reveal_strlit("OpenRepository");
    reveal_strlit("CloseRepository");
    let listed = crate::texts(p.methods@);
    let k = choose|k: int| 0 <= k < listed.len() && listed[k] == method;
    assert(k == 0 || k == 1 || k == 2 || k == 3 || k == 4);
    assert(method == "initialize"@ || method == "gitseer/getSnapshot"@ || method == "gitseer/refresh"@
        || method == "gitseer/subscribe"@ || method == "gitseer/unsubscribe"@);
    assert(method[0] == 'i' || method[0] == 'g');
    assert("OpenRepository"@[0] == 'O' && "CloseRepository"@[0] == 'C');
    assert(method != "OpenRepository"@ && method != "CloseRepository"@);
    if method == "gitseer/subscribe"@ {
        assert forall|i: int| 0 <= i < messages.len() implies !answers_method_not_found(#[trigger] messages[i]) by {
            if i == 1 {
                assert(messages[1] is Notification);
            }
        }
    }
}

/// Carries out a checked request and gives the messages before the
/// notification filter.
pub fn dispatch(state: &mut ProcessState, method: &str, params: &Option<JsonValue>, id: JsonValue) -> (r: Vec<ServerMessage>)
    requires
        old(state).version() < u64::MAX,
    ensures
        is_dispatch_outcome(*old(state), *final(state), method@, *params, id, r@),
{
    proof {
        reveal_strlit("gitseer/subscribe");
        reveal_strlit("gitseer/unsubscribe");
        reveal_strlit("initialize");
        reveal_strlit("gitseer/getSnapshot");
        reveal_strlit("gitseer/refresh");
        reveal_strlit("OpenRepository");
        reveal_strlit("CloseRepository");
    }
    if str_eq(method, "gitseer/subscribe") {
        let read = snapshot_repository(state.repo());
        return subscribe_messages(state, id, read);
    }
    let response = if str_eq(method, "gitseer/unsubscribe") {
        state.set_subscribed(false);
        success_response(id, ResponseResult::Subscription { subscribed: false })
    } else if str_eq(method, "initialize") {
        success_response(id, ResponseResult::Capabilities(Capabilities::current()))
    } else if str_eq(method, "gitseer/getSnapshot") {
        match snapshot_options(params) {
            Ok(options) => {
                let read = snapshot_repository_with_options(state.repo(), options);
                snapshot_response(id, read)
            },
            Err(e) => JsonRpcResponse { jsonrpc: own("2.0"), result: None, error: Some(e), id },
        }
    } else if str_eq(method, "gitseer/refresh") {
        match snapshot_options(params) {
            Ok(options) => {
                let read = snapshot_repository_with_options(state.repo(), options);
                refresh_response(state, id, read)
            },
            Err(e) => JsonRpcResponse { jsonrpc: own("2.0"), result: None, error: Some(e), id },
        }
    } else if str_eq(method, "OpenRepository") || str_eq(method, "CloseRepository") {
        error_response(id, METHOD_NOT_FOUND, "multi-repository service mode is not supported", None)
    } else {
        error_response(id, METHOD_NOT_FOUND, "method not found", None)
    };
    let mut messages: Vec<ServerMessage> = Vec::new();
    messages.push(ServerMessage::Response(response));
    messages
}

/// The id a response answers: the request's id, or null without one.
pub open spec fn id_or_null(id: Option<JsonValue>) -> JsonValue {
    match id {
        Some(v) => v,
        None => JsonValue::Null,
    }
}

/// A parse outcome with the error's text.
pub open spec fn parse_outcome(parsed: Result<JsonValue, String>) -> Result<JsonValue, Seq<char>> {
    match parsed {
        Ok(v) => Ok(v),
        Err(m) => Err(m@),
    }
}

/// What handling a request did, given what parsing its line gave: a parse
/// error or a refused request is answered with one error response and
/// changes nothing; a checked request is dispatched, and of what that gives
/// only the notifications go out when the request has no id.
pub open spec fn is_request_outcome(
    old_state: ProcessState,
    new_state: ProcessState,
    parsed: Result<JsonValue, Seq<char>>,
    messages: Seq<ServerMessage>,
) -> bool {
    match parsed {
        Err(m) => {
            &&& new_state == old_state
            &&& messages.len() == 1
            &&& messages[0] matches ServerMessage::Response(resp) && is_error_response(
                resp,
                JsonValue::Null,
                PARSE_ERROR,
                "parse error"@,
                Some(m),
            )
        },
        Ok(v) => match request_shape(v) {
            Err((id, detail)) => {
                &&& new_state == old_state
                &&& messages.len() == 1
                &&& messages[0] matches ServerMessage::Response(resp) && is_error_response(
                    resp,
                    id,
                    INVALID_REQUEST,
                    "invalid request"@,
                    Some(detail),
                )
            },
            Ok((method, params, id, notification)) => exists|all: Seq<ServerMessage>|
                #[trigger] is_dispatch_outcome(old_state, new_state, method, params, id_or_null(id), all)
                    && messages == delivered(all, notification),
        },
    }
}

/// Handling a request keeps the version or takes the next one.
pub proof fn lemma_request_version_steps(
    old_state: ProcessState,
    new_state: ProcessState,
    parsed: Result<JsonValue, Seq<char>>,
    messages: Seq<ServerMessage>,
)
    requires
        is_request_outcome(old_state, new_state, parsed, messages),
    ensures
        new_state.version() == old_state.version() || new_state.version() == old_state.version() + 1,
{
    if let Ok(v) = parsed {
        if let Ok((method, params, id, notification)) = request_shape(v) {
            let all = choose|all: Seq<ServerMessage>|
                #[trigger] is_dispatch_outcome(old_state, new_state, method, params, id_or_null(id), all)
                    && messages == delivered(all, notification);
            assert(is_dispatch_outcome(old_state, new_state, method, params, id_or_null(id), all));
        }
    }
}

fn single(m: ServerMessage) -> (r: Vec<ServerMessage>)
    ensures
        r@ == seq![m],
{
    let mut v: Vec<ServerMessage> = Vec::new();
    v.push(m);
    assert(v@ =~= seq![m]);
    v
}

/// Handles a request whose line has been parsed.
pub fn handle_parsed(state: &mut ProcessState, parsed: Result<JsonValue, String>) -> (r: Vec<ServerMessage>)
    requires
        old(state).version() < u64::MAX,
    ensures
        is_request_outcome(*old(state), *final(state), parse_outcome(parsed), r@),
{
    let value = match parsed {
        Ok(v) => v,
        Err(m) => {
            return single(ServerMessage::Response(error_response(JsonValue::Null, PARSE_ERROR, "parse error", Some(m))));
        },
    };
    let ghost v = value;
    let (request, is_notification) = match check_request(value) {
        Ok(checked) => checked,
        Err(resp) => {
            return single(ServerMessage::Response(resp));
        },
    };
    let JsonRpcRequest { jsonrpc: _, method, params, id } = request;
    let ghost id_spec = id;
    let id = match id {
        Some(i) => i,
        None => JsonValue::Null,
    };
    let all = dispatch(state, method.as_str(), &params, id);
    let ghost all_spec = all@;
    let r = response_messages(all, is_notification);
    assert(is_dispatch_outcome(*old(state), *state, method@, params, id_or_null(id_spec), all_spec));
    r
}

/// Handles one request line: parses it as JSON, checks it, carries it out,
/// and gives the messages to write.
pub fn handle_request(state: &mut ProcessState, line: &str) -> (r: Vec<ServerMessage>)
    requires
        old(state).version() < u64::MAX,
    ensures
        is_request_outcome(*old(state), *final(state), json_parse(line@), r@),
{
    let parsed = parse_json(line);
    handle_parsed(state, parsed)
}

/// `m` is the delta notification `x`.
pub open spec fn is_delta_notification(m: ServerMessage, x: DeltaNotificationParams) -> bool {
    m matches ServerMessage::Notification(n) && n.method@ == "gitseer/delta"@ && n.params == Some(
        NotificationParams::Delta(x),
    )
}

/// The outcome of recording `snapshot`, read after a change: it becomes the
/// recorded snapshot; without an earlier one, it goes out itself under the
/// next version; otherwise the delta from the earlier one goes out under the
/// next version, with the changed sections, or nothing goes out when
/// nothing changed.
pub open spec fn is_update_outcome(
    old_state: ProcessState,
    new_state: ProcessState,
    snapshot: RepositorySnapshot,
    messages: Seq<ServerMessage>,
) -> bool {
    &&& new_state.latest() == Some(snapshot)
    &&& new_state.repo_text() == old_state.repo_text()
    &&& new_state.subscribed_flag() == old_state.subscribed_flag()
    &&& match old_state.latest() {
        None => {
            &&& messages.len() == 1
            &&& is_snapshot_notification(messages[0], (old_state.version() + 1) as u64, snapshot)
            &&& new_state.version() == old_state.version() + 1
        },
        Some(p) => if messages.len() == 0 {
            &&& new_state.version() == old_state.version()
            &&& exists|d: SnapshotDelta| #[trigger] is_snapshot_delta(d, p, snapshot) && !d.changes()
        } else {
            &&& messages.len() == 1
            &&& exists|x: DeltaNotificationParams| #[trigger] is_delta_notification(messages[0], x) && {
                &&& x.previous_version == old_state.version()
                &&& x.version == old_state.version() + 1
                &&& new_state.version() == x.version
                &&& is_snapshot_delta(x.delta, p, snapshot)
                &&& x.delta.changes()
                &&& is_patch_of(x.patch, snapshot, x.delta)
            }
        },
    }
}

/// The messages a subscribed client gets for a snapshot read after a change:
/// without a recorded snapshot, the snapshot itself under the next version;
/// otherwise the delta from the recorded snapshot under the next version,
/// or nothing when nothing changed.
pub fn snapshot_update_messages(state: &mut ProcessState, snapshot: RepositorySnapshot) -> (r: Vec<ServerMessage>)
    requires
        old(state).version() < u64::MAX,
    ensures
        is_update_outcome(*old(state), *final(state), snapshot, r@),
{
    if state.latest_snapshot().is_none() {
        let params = state.record_baseline(snapshot);
        return single(notification("gitseer/snapshot", NotificationParams::Snapshot(params)));
    }
    match state.record_update(snapshot) {
        Some(delta) => {
            let ghost x = delta;
            let r = single(notification("gitseer/delta", NotificationParams::Delta(delta)));
            assert(is_delta_notification(r@[0], x));
            r
        },
        None => Vec::new(),
    }
}

/// The notification sent before the worker exits, with its reason.
pub fn goodbye_message(reason: String) -> (r: ServerMessage)
    ensures
        is_goodbye_notification(r, reason),
{
    notification("gitseer/goodbye", NotificationParams::Goodbye(GoodbyeParams { reason }))
}

/// A request without an id is answered with no response: only
/// notifications go out for it.
pub proof fn lemma_notification_requests_get_no_response(all: Seq<ServerMessage>)
    ensures
        forall|i: int| 0 <= i < delivered(all, true).len() ==> (#[trigger] delivered(all, true)[i]) is Notification,
{
    let f = |m: ServerMessage| m is Notification;
    assert forall|i: int| 0 <= i < all.filter(f).len() implies (#[trigger] all.filter(f)[i]) is Notification by {
        all.lemma_filter_pred(f, i);
    }
}


/// Recording `s` as a baseline, from `old_state` to `new_state`, giving `r`:
/// the next version, the snapshot sent and kept, the rest of the state
/// unchanged. An explicit refresh records exactly as a baseline does.
pub open spec fn is_baseline_record(
    old_state: ProcessState,
    new_state: ProcessState,
    s: RepositorySnapshot,
    r: SnapshotNotificationParams,
) -> bool {
    &&& r.version == old_state.version() + 1
    &&& new_state.version() == r.version
    &&& r.snapshot.same(&s)
    &&& new_state.latest() == Some(s)
    &&& new_state.repo_text() == old_state.repo_text()
    &&& new_state.subscribed_flag() == old_state.subscribed_flag()
}

/// Over any run of steps of a process state in which each step keeps the
/// version or takes the next one (as every recording, request and update
/// does), the version never goes back and grows by at most one per step.
pub proof fn lemma_process_versions_monotonic(states: Seq<ProcessState>, i: int, j: int)
    requires
        forall|k: int| 0 <= k < states.len() - 1 ==> (#[trigger] states[k + 1]).version() == states[k].version()
            || states[k + 1].version() == states[k].version() + 1,
        0 <= i <= j < states.len(),
    ensures
        states[i].version() <= states[j].version(),
        states[j].version() - states[i].version() <= j - i,
    decreases j - i,
{
    if i < j {
        lemma_process_versions_monotonic(states, i, j - 1);
        assert(states[(j - 1) + 1].version() == states[j - 1].version() || states[(j - 1) + 1].version()
            == states[j - 1].version() + 1);
    }
}

/// A snapshot request, answered or taken as a notification, leaves the
/// subscription, the recorded snapshot and its version as they were, so
/// the baseline of later deltas does not move.
pub proof fn lemma_get_snapshot_keeps_state(
    old_state: ProcessState,
    new_state: ProcessState,
    parsed: Result<JsonValue, Seq<char>>,
    messages: Seq<ServerMessage>,
)
    requires
        is_request_outcome(old_state, new_state, parsed, messages),
        parsed matches Ok(v) && request_shape(v) matches Ok((m, _, _, _)) && m == "gitseer/getSnapshot"@,
    ensures
        new_state.version() == old_state.version(),
        new_state.latest() == old_state.latest(),
        new_state.subscribed_flag() == old_state.subscribed_flag(),
{
    reveal_strlit("gitseer/getSnapshot");
    reveal_strlit("gitseer/subscribe");
    reveal_strlit("gitseer/unsubscribe");
    reveal_strlit("initialize");
    assert("gitseer/getSnapshot"@[8] == 'g' && "gitseer/subscribe"@[8] == 's' && "gitseer/unsubscribe"@[8] == 'u');
    assert("gitseer/getSnapshot"@ != "initialize"@);
    let v = parsed->Ok_0;
    let (method, params, id, notification) = request_shape(v)->Ok_0;
    let all = choose|all: Seq<ServerMessage>|
        #[trigger] is_dispatch_outcome(old_state, new_state, method, params, id_or_null(id), all)
            && messages == delivered(all, notification);
    assert(is_dispatch_outcome(old_state, new_state, method, params, id_or_null(id), all));
}

/// A request with an id gets exactly one response, first, answering that
/// id; whatever else goes out is a notification.
pub proof fn lemma_requests_with_id_get_one_response(
    old_state: ProcessState,
    new_state: ProcessState,
    parsed: Result<JsonValue, Seq<char>>,
    messages: Seq<ServerMessage>,
)
    requires
        is_request_outcome(old_state, new_state, parsed, messages),
        parsed matches Ok(v) && request_shape(v) matches Ok((_, _, id, _)) && id is Some,
    ensures
        messages.len() >= 1,
        messages[0] matches ServerMessage::Response(r) && r.id == id_or_null(
            request_shape(parsed->Ok_0)->Ok_0.2,
        ),
        forall|k: int| 1 <= k < messages.len() ==> (#[trigger] messages[k]) is Notification,
{
    let v = parsed->Ok_0;
    let (method, params, id, notification) = request_shape(v)->Ok_0;
    assert(!notification);
    let all = choose|all: Seq<ServerMessage>|
        #[trigger] is_dispatch_outcome(old_state, new_state, method, params, id_or_null(id), all)
            && messages == delivered(all, notification);
    assert(is_dispatch_outcome(old_state, new_state, method, params, id_or_null(id), all));
    assert(messages == all);
    assert forall|k: int| 1 <= k < messages.len() implies (#[trigger] messages[k]) is Notification by {
        if method == "gitseer/subscribe"@ {
            assert(k == 1);
        }
    }
}


/// Every notification among `messages` has a method that the protocol
/// capabilities `p` list.
pub open spec fn notifications_listed(p: crate::ProtocolCapabilities, messages: Seq<ServerMessage>) -> bool {
    forall|i: int|
        0 <= i < messages.len() ==> ((#[trigger] messages[i]) matches ServerMessage::Notification(n)
            ==> crate::texts(p.notifications@).contains(n.method@))
}

proof fn lemma_listed_notification_methods(p: crate::ProtocolCapabilities)
    requires
        crate::is_current_protocol(p),
    ensures
        crate::texts(p.notifications@).contains("gitseer/snapshot"@),
        crate::texts(p.notifications@).contains("gitseer/delta"@),
        crate::texts(p.notifications@).contains("gitseer/goodbye"@),
{
    let t = crate::texts(p.notifications@);
    assert(t[0] == "gitseer/snapshot"@);
    assert(t[1] == "gitseer/delta"@);
    assert(t[2] == "gitseer/goodbye"@);
}

/// The notifications sent for a request have methods that the
/// capabilities of this build list.
pub proof fn lemma_request_notifications_are_listed(
    p: crate::ProtocolCapabilities,
    old_state: ProcessState,
    new_state: ProcessState,
    method: Seq<char>,
    params: Option<JsonValue>,
    id: JsonValue,
    messages: Seq<ServerMessage>,
)
    requires
        crate::is_current_protocol(p),
        is_dispatch_outcome(old_state, new_state, method, params, id, messages),
    ensures
        notifications_listed(p, messages),
{
    lemma_listed_notification_methods(p);
}

/// The notifications sent for a snapshot read after a change have methods
/// that the capabilities of this build list.
pub proof fn lemma_update_notifications_are_listed(
    p: crate::ProtocolCapabilities,
    old_state: ProcessState,
    new_state: ProcessState,
    snapshot: RepositorySnapshot,
    messages: Seq<ServerMessage>,
)
    requires
        crate::is_current_protocol(p),
        is_update_outcome(old_state, new_state, snapshot, messages),
    ensures
        notifications_listed(p, messages),
{
    lemma_listed_notification_methods(p);
    if old_state.latest() is Some && messages.len() > 0 {
        let x = choose|x: DeltaNotificationParams| #[trigger] is_delta_notification(messages[0], x);
    }
}

/// The goodbye notification has a method that the capabilities of this
/// build list.
pub proof fn lemma_goodbye_is_listed(p: crate::ProtocolCapabilities, reason: String)
    requires
        crate::is_current_protocol(p),
    ensures
        forall|m: ServerMessage| #[trigger] is_goodbye_notification(m, reason) ==> notifications_listed(p, seq![m]),
{
    lemma_listed_notification_methods(p);
    assert forall|m: ServerMessage| #[trigger] is_goodbye_notification(m, reason) implies notifications_listed(p, seq![m]) by {
        assert(seq![m][0] == m);
    }
}

/// `m` is the goodbye notification with `reason`, as `goodbye_message`
/// gives it.
pub open spec fn is_goodbye_notification(m: ServerMessage, reason: String) -> bool {
    m matches ServerMessage::Notification(n) && n.jsonrpc@ == "2.0"@ && n.method@ == "gitseer/goodbye"@
        && n.params == Some(NotificationParams::Goodbye(GoodbyeParams { reason }))
}


/// Over a run of recordings (`record_baseline`, `record_refresh`,
/// `record_update`), each keeping the version or taking the next one, where
/// every version handed out (`emitted[k]`) is the next version the call
/// took: the versions handed out strictly increase, so a client can tell a
/// missed, repeated or reordered update.
pub proof fn lemma_emitted_versions_increase(states: Seq<ProcessState>, emitted: Seq<Option<u64>>, i: int, j: int)
    requires
        states.len() == emitted.len() + 1,
        forall|k: int| 0 <= k < states.len() - 1 ==> (#[trigger] states[k + 1]).version() == states[k].version()
            || states[k + 1].version() == states[k].version() + 1,
        forall|k: int| 0 <= k < emitted.len() ==> ((#[trigger] emitted[k]) matches Some(v) ==> v == states[k
            + 1].version() && v == states[k].version() + 1),
        0 <= i < j < emitted.len(),
        emitted[i] is Some,
        emitted[j] is Some,
    ensures
        emitted[i]->0 < emitted[j]->0,
{
    lemma_process_versions_monotonic(states, i + 1, j);
    assert(emitted[i] matches Some(v) ==> v == states[i + 1].version());
    assert(emitted[j] matches Some(v) ==> v == states[j].version() + 1);
}

/// The snapshot a response carries: that of a snapshot answer or of a
/// refresh answer.
pub open spec fn answered_snapshot(resp: JsonRpcResponse) -> Option<RepositorySnapshot> {
    match resp.result {
        Some(ResponseResult::Snapshot(s)) => Some(s),
        Some(ResponseResult::Refresh(p)) => Some(p.snapshot),
        _ => None,
    }
}

/// The ignored paths of `s` are exactly those that a status listing asked
/// for with ignored files listed exactly when `include_ignored` holds reports
/// ignored.
pub open spec fn ignored_as_listed(s: RepositorySnapshot, include_ignored: bool) -> bool {
    exists|l: StatusListing|
        #![trigger l.asked()]
        l.asked().include_ignored == include_ignored && text_set(s.paths.ignored@) == status_paths(
            l.entries(),
            |x: StatusItem| x.other.0,
        )
}

/// A snapshot request reads with the options its parameters ask for: when
/// `gitseer/getSnapshot` or `gitseer/refresh` answers without an error, the
/// parameters were valid snapshot parameters and the answer carries a
/// snapshot; for a repository that is not bare, its ignored paths are
/// exactly those reported ignored by a status listing asked for with ignored
/// files listed exactly when the parameters set `includeIgnored`, and with
/// them not asked for there are none.
pub proof fn lemma_snapshot_requests_read_as_asked(
    old_state: ProcessState,
    new_state: ProcessState,
    method: Seq<char>,
    params: Option<JsonValue>,
    id: JsonValue,
    messages: Seq<ServerMessage>,
)
    requires
        is_dispatch_outcome(old_state, new_state, method, params, id, messages),
        method == "gitseer/getSnapshot"@ || method == "gitseer/refresh"@,
        messages.len() > 0,
        messages[0] matches ServerMessage::Response(resp) && resp.error is None,
    ensures
        include_ignored_of(params) is Some,
        messages[0] matches ServerMessage::Response(resp) && answered_snapshot(resp) matches Some(s) && {
            let b = include_ignored_of(params)->0;
            &&& !s.identity.is_bare ==> ignored_as_listed(s, b)
            &&& !b ==> s.paths.ignored@.len() == 0
        },
{
    reveal_strlit("gitseer/getSnapshot");
    reveal_strlit("gitseer/refresh");
    reveal_strlit("gitseer/subscribe");
    reveal_strlit("gitseer/unsubscribe");
    reveal_strlit("initialize");
    assert("gitseer/getSnapshot"@[8] == 'g' && "gitseer/refresh"@[8] == 'r' && "gitseer/subscribe"@[8] == 's'
        && "gitseer/unsubscribe"@[8] == 'u');
    assert("gitseer/getSnapshot"@ != "initialize"@ && "gitseer/refresh"@ != "initialize"@);
    let resp = messages[0]->Response_0;
    let b = include_ignored_of(params)->0;
    if method == "gitseer/getSnapshot"@ {
        let s = resp.result->Some_0->Snapshot_0;
        assert(is_read_snapshot(s, b));
        if !s.identity.is_bare {
            let (l, c, f) = choose|l: StatusListing, c: Seq<ConflictSummary>, f: Seq<IndexFlags>|
                #![trigger is_path_state_of(s.paths, l.entries(), c, f)]
                l.asked() == snapshot_status_request(b) && is_path_state_of(s.paths, l.entries(), c, f);
            assert(l.asked().include_ignored == b);
        }
    } else {
        let p = resp.result->Some_0->Refresh_0;
        let l = new_state.latest()->Some_0;
        assert(is_read_snapshot(l, b));
        assert(p.snapshot.same(&l));
        let (a, z) = (p.snapshot.paths.ignored@, l.paths.ignored@);
        assert(a.len() == z.len());
        assert forall|t: Seq<char>| text_set(a).contains(t) <==> text_set(z).contains(t) by {
            if text_set(a).contains(t) {
                let i = choose|i: int| 0 <= i < a.len() && (#[trigger] a[i])@ == t;
                assert(a[i].same(&z[i]));
                assert(z[i]@ == t);
            }
            if text_set(z).contains(t) {
                let i = choose|i: int| 0 <= i < z.len() && (#[trigger] z[i])@ == t;
                assert(a[i].same(&z[i]));
                assert(a[i]@ == t);
            }
        }
        assert(text_set(a) =~= text_set(z));
        assert(p.snapshot.identity.is_bare == l.identity.is_bare);
        if !l.identity.is_bare {
            let (x, c, f) = choose|x: StatusListing, c: Seq<ConflictSummary>, f: Seq<IndexFlags>|
                #![trigger is_path_state_of(l.paths, x.entries(), c, f)]
                x.asked() == snapshot_status_request(b) && is_path_state_of(l.paths, x.entries(), c, f);
            assert(x.asked().include_ignored == b);
            assert(text_set(p.snapshot.paths.ignored@) == status_paths(x.entries(), |y: StatusItem| y.other.0));
        }
    }
}

} // verus!
