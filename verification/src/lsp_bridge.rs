//! The decisions of a bridge to one LSP server: request numbering, the
//! JSON-RPC messages it sends, how it reads what comes back while it waits
//! for an answer, the `initialize` request and the shutdown procedure.

use vstd::prelude::*;

use crate::json::{
    array1, json_int, json_string, json_uint, obj, object, object2, object3, object4, str_json, int_json,
    lemma_lookup_member, lemma_members_of, Json, JsonMember, JsonValue, NumberView,
};
use crate::text::{chars_of, signed_decimal, signed_decimal_chars};
use crate::utils::{directory_url, file_name, file_name_of, url_of_directory};
use vstd::string::StringExecFns;

verus! {

/// Seconds that the bridge waits for an answer, or for the server to exit.
pub const REQUEST_TIMEOUT_SECS: u64 = 15;

/// The numbers given to requests: 1, 2, 3, ... in the order they are sent.
pub struct RequestIds {
    next: i64,
}

impl RequestIds {
    /// The number that the next request gets.
    pub closed spec fn next(&self) -> i64 {
        self.next
    }

    /// Numbering that starts at 1.
    pub fn new() -> (res: Self)
        ensures
            res.next() == 1,
    {
        RequestIds { next: 1 }
    }

    /// The number that the next request gets.
    pub fn peek(&self) -> (res: i64)
        ensures
            res == self.next(),
    {
        self.next
    }

    /// Gives the next request its number.
    pub fn take(&mut self) -> (id: i64)
        requires
            old(self).next() < i64::MAX,
        ensures
            id == old(self).next(),
            final(self).next() == old(self).next() + 1,
    {
        let id = self.next;
        self.next = self.next + 1;
        id
    }
}

/// A JSON-RPC request message.
pub open spec fn spec_request_payload(id: i64, method: Seq<char>, params: Json) -> Json {
    obj(seq![("jsonrpc"@, str_json("2.0"@)), ("id"@, int_json(id)), ("method"@, str_json(method)), ("params"@, params)])
}

/// A JSON-RPC notification message (it has no `id`).
pub open spec fn spec_notification_payload(method: Seq<char>, params: Json) -> Json {
    obj(seq![("jsonrpc"@, str_json("2.0"@)), ("method"@, str_json(method)), ("params"@, params)])
}

/// The request message `method(params)` numbered `id`.
pub fn request_payload(id: i64, method: &str, params: JsonValue) -> (res: JsonValue)
    ensures
        res@ == spec_request_payload(id, method@, params@),
{
    object4("jsonrpc", json_string("2.0"), "id", json_int(id), "method", json_string(method), "params", params)
}

/// The notification message `method(params)`.
pub fn notification_payload(method: &str, params: JsonValue) -> (res: JsonValue)
    ensures
        res@ == spec_notification_payload(method@, params@),
{
    object3("jsonrpc", json_string("2.0"), "method", json_string(method), "params", params)
}

/// Whether a response `id` names request `id`: the protocol allows it to be
/// the number or the string of its decimal digits.
pub open spec fn spec_matches_id(candidate: Json, id: i64) -> bool {
    candidate.as_i64() == Some(id) || candidate.as_str() == Some(signed_decimal(id as int))
}

/// Checks if a JSON value matches the expected request ID (a number or a string).
pub fn matches_id(candidate: &JsonValue, id: i64) -> (res: bool)
    ensures
        res == spec_matches_id(candidate@, id),
{
    if candidate.as_i64() == Some(id) {
        return true;
    }
    match candidate.as_str() {
        Some(s) => {
            let digits = signed_decimal_chars(id);
            let text = chars_of(s.as_str());
            if digits.len() != text.len() {
                return false;
            }
            let mut i: usize = 0;
            while i < digits.len()
                invariant
                    digits@ == signed_decimal(id as int),
                    text@ == s@,
                    candidate@.as_str() == Some(s@),
                    candidate@.as_i64() != Some(id),
                    digits.len() == text.len(),
                    i <= digits.len(),
                    forall|j: int| 0 <= j < i ==> digits@[j] == text@[j],
                decreases digits.len() - i,
            {
                if digits[i] != text[i] {
                    assert(digits@[i as int] != text@[i as int]);
                    return false;
                }
                i = i + 1;
            }
            assert(digits@ =~= text@);
            true
        },
        None => false,
    }
}

/// Why a message met while waiting for an answer is passed over.
#[derive(Clone, Copy, Debug, PartialEq, Eq, Structural)]
pub enum SkipReason {
    /// The answer to another request.
    OtherRequest,
    /// A message without `id` (a notification from the server).
    Notification,
    /// A message that is not a JSON object.
    NotAnObject,
}

/// What a message means to a request that waits for its answer.
#[derive(Debug)]
pub enum ResponseStep {
    /// Not the answer: wait for the next message.
    Skip(SkipReason),
    /// The answer, with this result.
    Answer(JsonValue),
    /// The answer, with this error.
    ServerError(JsonValue),
    /// The answer, with neither result nor error.
    Malformed,
    /// The server's stream ended before the answer.
    Terminated,
}

/// Mathematical view of a `ResponseStep`.
pub enum ResponseView {
    Skip(SkipReason),
    Answer(Json),
    ServerError(Json),
    Malformed,
    Terminated,
}

impl View for ResponseStep {
    type V = ResponseView;

    open spec fn view(&self) -> ResponseView {
        match self {
            ResponseStep::Skip(r) => ResponseView::Skip(*r),
            ResponseStep::Answer(v) => ResponseView::Answer(v@),
            ResponseStep::ServerError(v) => ResponseView::ServerError(v@),
            ResponseStep::Malformed => ResponseView::Malformed,
            ResponseStep::Terminated => ResponseView::Terminated,
        }
    }
}

/// How a message is read while waiting for the answer to request `id`:
/// only an object whose `id` names the request is its answer; its `result`
/// is returned, else its `error`.
pub open spec fn spec_classify_response(message: Option<Json>, id: i64) -> ResponseView {
    match message {
        None => ResponseView::Terminated,
        Some(m) => if !m.is_object() {
            ResponseView::Skip(SkipReason::NotAnObject)
        } else {
            match m.get("id"@) {
                None => ResponseView::Skip(SkipReason::Notification),
                Some(rid) => if !spec_matches_id(rid, id) {
                    ResponseView::Skip(SkipReason::OtherRequest)
                } else {
                    match (m.get("result"@), m.get("error"@)) {
                        (Some(r), _) => ResponseView::Answer(r),
                        (None, Some(e)) => ResponseView::ServerError(e),
                        (None, None) => ResponseView::Malformed,
                    }
                }
            }
        },
    }
}

/// Reads one message (`None` at the end of the stream) while waiting for
/// the answer to request `id`.
pub fn classify_response(message: Option<&JsonValue>, id: i64) -> (res: ResponseStep)
    ensures
        res@ == spec_classify_response(
            match message {
                Some(m) => Some(m@),
                None => None,
            },
            id,
        ),
{
    let m = match message {
        None => return ResponseStep::Terminated,
        Some(m) => m,
    };
    if !m.is_object() {
        return ResponseStep::Skip(SkipReason::NotAnObject);
    }
    let rid = match m.get("id") {
        None => return ResponseStep::Skip(SkipReason::Notification),
        Some(r) => r,
    };
    if !matches_id(rid, id) {
        return ResponseStep::Skip(SkipReason::OtherRequest);
    }
    if let Some(result) = m.get("result") {
        return ResponseStep::Answer(result.deep_clone());
    }
    if let Some(error) = m.get("error") {
        return ResponseStep::ServerError(error.deep_clone());
    }
    ResponseStep::Malformed
}

/// The answer that a request gets is the answer the server addressed to it:
/// a message that carries the request's own number and a `result` is taken
/// as the answer, and one that carries any other number is passed over.
pub proof fn law_answers_are_matched_by_id(id: i64, other: i64, result: Json)
    requires
        id != other,
    ensures
        spec_classify_response(Some(obj(seq![("jsonrpc"@, str_json("2.0"@)), ("id"@, int_json(id)), ("result"@, result)])), id)
            == ResponseView::Answer(result),
        spec_classify_response(Some(obj(seq![("jsonrpc"@, str_json("2.0"@)), ("id"@, int_json(other)), ("result"@, result)])), id)
            == ResponseView::Skip(SkipReason::OtherRequest),
        spec_classify_response(Some(spec_notification_payload("window/logMessage"@, result)), id)
            == ResponseView::Skip(SkipReason::Notification),
{
    reveal_strlit("jsonrpc");
    reveal_strlit("id");
    reveal_strlit("result");
    reveal_strlit("method");
    reveal_strlit("params");
    reveal_strlit("error");
    let m1 = seq![("jsonrpc"@, str_json("2.0"@)), ("id"@, int_json(id)), ("result"@, result)];
    assert(m1.drop_last().drop_last().last().0 == "jsonrpc"@);
    assert(m1.drop_last().last().0 == "id"@);
    assert(crate::json::lookup(m1, "id"@) == crate::json::lookup(m1.drop_last(), "id"@));
    assert(crate::json::lookup(m1, "result"@) == Some(result));
    let m2 = seq![("jsonrpc"@, str_json("2.0"@)), ("id"@, int_json(other)), ("result"@, result)];
    assert(crate::json::lookup(m2, "id"@) == crate::json::lookup(m2.drop_last(), "id"@));
    assert(m2.drop_last().last() == ("id"@, int_json(other)));
    let m3 = seq![("jsonrpc"@, str_json("2.0"@)), ("method"@, str_json("window/logMessage"@)), ("params"@, result)];
    assert(m3.drop_last().drop_last().drop_last().len() == 0);
    assert(crate::json::lookup(m3, "id"@) == crate::json::lookup(m3.drop_last(), "id"@));
    assert(crate::json::lookup(m3.drop_last(), "id"@) == crate::json::lookup(m3.drop_last().drop_last(), "id"@));
    assert(crate::json::lookup(m3.drop_last().drop_last(), "id"@) == crate::json::lookup(m3.drop_last().drop_last().drop_last(), "id"@));
}

/// Why the bridge cannot start a session.
#[derive(Clone, Copy, Debug, PartialEq, Eq, Structural)]
pub enum BridgeError {
    /// workspace path cannot be expressed as file URI
    WorkspaceNotFileUri,
}

/// The name of a workspace: its directory's name, or `workspace` when it has none.
pub open spec fn spec_workspace_name(workspace: Seq<char>) -> Seq<char> {
    match file_name(workspace) {
        Some(n) => n,
        None => "workspace"@,
    }
}

/// The parameters of the `initialize` request for a workspace: the process
/// id, the workspace as root URI and root path, no client capabilities, and
/// the workspace as the one workspace folder.
pub open spec fn spec_initialize_params(process_id: u32, workspace: Seq<char>) -> Result<Json, BridgeError> {
    match directory_url(workspace) {
        None => Err(BridgeError::WorkspaceNotFileUri),
        Some(root_uri) => Ok(obj(seq![
            ("processId"@, Json::Number(NumberView::PosInt(process_id as u64))),
            ("rootUri"@, str_json(root_uri)),
            ("rootPath"@, str_json(workspace)),
            ("capabilities"@, obj(Seq::empty())),
            ("workspaceFolders"@, Json::Array(seq![obj(seq![
                ("name"@, str_json(spec_workspace_name(workspace))),
                ("uri"@, str_json(root_uri)),
            ])])),
        ])),
    }
}

/// The parameters of the `initialize` request that starts a session for
/// `workspace` from process `process_id`.
pub fn initialize_params(process_id: u32, workspace: &str) -> (res: Result<JsonValue, BridgeError>)
    ensures
        match res {
            Ok(v) => spec_initialize_params(process_id, workspace@) == Ok::<Json, BridgeError>(v@),
            Err(e) => spec_initialize_params(process_id, workspace@) == Err::<Json, BridgeError>(e),
        },
        res is Ok <==> (workspace@.len() > 0 && workspace@[0] == '/'),
{
    let root_uri = match url_of_directory(workspace) {
        Some(u) => u,
        None => return Err(BridgeError::WorkspaceNotFileUri),
    };
    let name = match file_name_of(workspace) {
        Some(n) => n,
        None => String::from_str("workspace"),
    };
    let folder = object2("name", json_string(name.as_str()), "uri", json_string(root_uri.as_str()));
    let no_capabilities = object(Vec::new());
    proof {
        lemma_members_of(Seq::<JsonMember>::empty());
    }
    assert(no_capabilities@ == obj(Seq::empty()));
    let members: Vec<JsonMember> = vec![
        crate::json::member("processId", json_uint(process_id as u64)),
        crate::json::member("rootUri", json_string(root_uri.as_str())),
        crate::json::member("rootPath", json_string(workspace)),
        crate::json::member("capabilities", no_capabilities),
        crate::json::member("workspaceFolders", array1(folder)),
    ];
    proof {
        lemma_members_of(members@);
    }
    let params = object(members);
    assert(params@->Object_0 =~= spec_initialize_params(process_id, workspace@)->Ok_0->Object_0);
    Ok(params)
}

/// Where the shutdown procedure stands.
#[derive(Clone, Copy, Debug, PartialEq, Eq, Structural)]
pub enum ShutdownStage {
    /// The `shutdown` request was sent.
    AwaitShutdownAnswer,
    /// The `exit` notification was sent.
    AwaitExitSent,
    /// Waiting (with a time limit) for the process to exit.
    AwaitProcessExit,
    /// The process is being killed, for this reason.
    AwaitKill(KillReason),
    /// The procedure is over.
    Finished,
}

/// Why the server process is killed.
#[derive(Clone, Copy, Debug, PartialEq, Eq, Structural)]
pub enum KillReason {
    /// The `shutdown` request failed.
    ShutdownRequestFailed,
    /// Waiting for the process failed.
    Unresponsive,
    /// The process did not exit in time.
    TimedOut,
}

/// How the last step of the procedure went.
#[derive(Clone, Copy, Debug, PartialEq, Eq, Structural)]
pub enum StepOutcome {
    Succeeded,
    Failed,
    TimedOut,
}

/// What the procedure does next.
#[derive(Clone, Copy, Debug, PartialEq, Eq, Structural)]
pub enum ShutdownAction {
    /// Send the `exit` notification.
    SendExit,
    /// Wait for the process to exit, at most `REQUEST_TIMEOUT_SECS`.
    WaitForExit,
    /// Kill the process.
    Kill,
    /// The procedure is over.
    Finish,
    /// The procedure is over, but killing the process (for this reason) failed.
    FinishKillFailed(KillReason),
}

/// The shutdown procedure of the LSP protocol: `shutdown` request, `exit`
/// notification, wait for the process; the process is killed when the
/// request fails or the process does not exit in time.
pub open spec fn spec_shutdown_step(stage: ShutdownStage, outcome: StepOutcome) -> (ShutdownStage, ShutdownAction) {
    match stage {
        ShutdownStage::AwaitShutdownAnswer => if outcome == StepOutcome::Succeeded {
            (ShutdownStage::AwaitExitSent, ShutdownAction::SendExit)
        } else {
            (ShutdownStage::AwaitKill(KillReason::ShutdownRequestFailed), ShutdownAction::Kill)
        },
        ShutdownStage::AwaitExitSent => (ShutdownStage::AwaitProcessExit, ShutdownAction::WaitForExit),
        ShutdownStage::AwaitProcessExit => match outcome {
            StepOutcome::Succeeded => (ShutdownStage::Finished, ShutdownAction::Finish),
            StepOutcome::Failed => (ShutdownStage::AwaitKill(KillReason::Unresponsive), ShutdownAction::Kill),
            StepOutcome::TimedOut => (ShutdownStage::AwaitKill(KillReason::TimedOut), ShutdownAction::Kill),
        },
        ShutdownStage::AwaitKill(reason) => if outcome == StepOutcome::Succeeded {
            (ShutdownStage::Finished, ShutdownAction::Finish)
        } else {
            (ShutdownStage::Finished, ShutdownAction::FinishKillFailed(reason))
        },
        ShutdownStage::Finished => (ShutdownStage::Finished, ShutdownAction::Finish),
    }
}

/// The shutdown procedure of one server.
pub struct Shutdown {
    stage: ShutdownStage,
}

impl Shutdown {
    pub closed spec fn stage(&self) -> ShutdownStage {
        self.stage
    }

    /// Starts the procedure; the caller sends the `shutdown` request first.
    pub fn begin() -> (res: Self)
        ensures
            res.stage() == ShutdownStage::AwaitShutdownAnswer,
    {
        Shutdown { stage: ShutdownStage::AwaitShutdownAnswer }
    }

    pub fn is_finished(&self) -> (res: bool)
        ensures
            res == (self.stage() == ShutdownStage::Finished),
    {
        self.stage == ShutdownStage::Finished
    }

    /// Reports how the last step went and gives the next one.
    pub fn step(&mut self, outcome: StepOutcome) -> (action: ShutdownAction)
        requires
            old(self).stage() != ShutdownStage::Finished,
        ensures
            (final(self).stage(), action) == spec_shutdown_step(old(self).stage(), outcome),
    {
        let (next, action) = match self.stage {
            ShutdownStage::AwaitShutdownAnswer => if outcome == StepOutcome::Succeeded {
                (ShutdownStage::AwaitExitSent, ShutdownAction::SendExit)
            } else {
                (ShutdownStage::AwaitKill(KillReason::ShutdownRequestFailed), ShutdownAction::Kill)
            },
            ShutdownStage::AwaitExitSent => (ShutdownStage::AwaitProcessExit, ShutdownAction::WaitForExit),
            ShutdownStage::AwaitProcessExit => match outcome {
                StepOutcome::Succeeded => (ShutdownStage::Finished, ShutdownAction::Finish),
                StepOutcome::Failed => (ShutdownStage::AwaitKill(KillReason::Unresponsive), ShutdownAction::Kill),
                StepOutcome::TimedOut => (ShutdownStage::AwaitKill(KillReason::TimedOut), ShutdownAction::Kill),
            },
            ShutdownStage::AwaitKill(reason) => if outcome == StepOutcome::Succeeded {
                (ShutdownStage::Finished, ShutdownAction::Finish)
            } else {
                (ShutdownStage::Finished, ShutdownAction::FinishKillFailed(reason))
            },
            ShutdownStage::Finished => (ShutdownStage::Finished, ShutdownAction::Finish),
        };
        self.stage = next;
        action
    }
}

/// The stage after the given outcomes, from the start of the procedure.
pub open spec fn shutdown_run(outcomes: Seq<StepOutcome>) -> ShutdownStage
    decreases outcomes.len(),
{
    if outcomes.len() == 0 {
        ShutdownStage::AwaitShutdownAnswer
    } else {
        spec_shutdown_step(shutdown_run(outcomes.drop_last()), outcomes.last()).0
    }
}

/// The actions that the procedure gives for the given outcomes, from its start.
pub open spec fn shutdown_actions(outcomes: Seq<StepOutcome>) -> Seq<ShutdownAction>
    decreases outcomes.len(),
{
    if outcomes.len() == 0 {
        Seq::empty()
    } else {
        shutdown_actions(outcomes.drop_last()).push(spec_shutdown_step(shutdown_run(outcomes.drop_last()), outcomes.last()).1)
    }
}

/// The shutdown procedure always ends: whatever happens at each step, it is
/// over after at most four steps; and it kills the process exactly when the
/// `shutdown` request fails or the process does not exit cleanly in time.
pub proof fn law_shutdown_terminates(outcomes: Seq<StepOutcome>)
    requires
        outcomes.len() == 4,
    ensures
        shutdown_run(outcomes) == ShutdownStage::Finished,
        shutdown_actions(outcomes).contains(ShutdownAction::Kill) <==> !(outcomes[0] == StepOutcome::Succeeded
            && outcomes[2] == StepOutcome::Succeeded),
{
    let o = outcomes;
    assert(o.take(3).drop_last() =~= o.take(2));
    assert(o.take(2).drop_last() =~= o.take(1));
    assert(o.take(1).drop_last() =~= o.take(0));
    assert(o.drop_last() =~= o.take(3));
    let a1 = shutdown_actions(o.take(1));
    let a2 = shutdown_actions(o.take(2));
    let a3 = shutdown_actions(o.take(3));
    let a4 = shutdown_actions(o);
    assert(shutdown_actions(o.take(0)) =~= Seq::<ShutdownAction>::empty());
    assert(a1 =~= seq![spec_shutdown_step(ShutdownStage::AwaitShutdownAnswer, o[0]).1]);
    assert(a2 == a1.push(spec_shutdown_step(shutdown_run(o.take(1)), o[1]).1));
    assert(a3 == a2.push(spec_shutdown_step(shutdown_run(o.take(2)), o[2]).1));
    assert(a4 == a3.push(spec_shutdown_step(shutdown_run(o.take(3)), o[3]).1));
    if o[0] == StepOutcome::Succeeded {
        assert(shutdown_run(o.take(2)) == ShutdownStage::AwaitProcessExit);
        if o[2] == StepOutcome::Succeeded {
            assert(!a4.contains(ShutdownAction::Kill)) by {
                assert(a4 =~= seq![ShutdownAction::SendExit, ShutdownAction::WaitForExit, ShutdownAction::Finish, ShutdownAction::Finish]);
            }
        } else {
            assert(a4[2] == ShutdownAction::Kill);
        }
    } else {
        assert(shutdown_run(o.take(2)) == ShutdownStage::Finished);
        assert(a4[0] == ShutdownAction::Kill);
    }
}

/// A request message carries what it is given: its `params` member is the
/// parameters passed in, whatever they are, beside `jsonrpc` "2.0", the
/// request's number as `id` and the method's name; it has no other member.
/// A notification carries its parameters and method the same way, and has
/// no `id`.
pub proof fn law_messages_carry_their_parts(id: i64, method: Seq<char>, params: Json)
    ensures
        spec_request_payload(id, method, params).get("params"@) == Some(params),
        spec_request_payload(id, method, params).get("jsonrpc"@) == Some(Json::String("2.0"@)),
        spec_request_payload(id, method, params).get("method"@) == Some(Json::String(method)),
        spec_request_payload(id, method, params).get("id"@) matches Some(n) && n.as_i64() == Some(id),
        spec_request_payload(id, method, params)->Object_0.len() == 4,
        spec_notification_payload(method, params).get("params"@) == Some(params),
        spec_notification_payload(method, params).get("jsonrpc"@) == Some(Json::String("2.0"@)),
        spec_notification_payload(method, params).get("method"@) == Some(Json::String(method)),
        spec_notification_payload(method, params).get("id"@) is None,
        spec_notification_payload(method, params)->Object_0.len() == 3,
{
    reveal_strlit("jsonrpc");
    reveal_strlit("id");
    reveal_strlit("method");
    reveal_strlit("params");
    let r = seq![("jsonrpc"@, str_json("2.0"@)), ("id"@, int_json(id)), ("method"@, str_json(method)), ("params"@, params)];
    assert(r.drop_last().drop_last().drop_last().drop_last().len() == 0);
    assert(r.last().0 == "params"@);
    assert(r.drop_last().last().0 == "method"@);
    assert(r.drop_last().drop_last().last().0 == "id"@);
    assert("params"@.len() != "id"@.len());
    assert("method"@.len() != "id"@.len());
    assert("params"@[0] != "method"@[0]);
    assert("params"@[0] != "jsonrpc"@[0]);
    assert("method"@[0] != "jsonrpc"@[0]);
    assert(crate::json::lookup(r, "id"@) == crate::json::lookup(r.drop_last(), "id"@));
    assert(crate::json::lookup(r.drop_last(), "id"@) == crate::json::lookup(r.drop_last().drop_last(), "id"@));
    assert(crate::json::lookup(r, "method"@) == crate::json::lookup(r.drop_last(), "method"@));
    assert(crate::json::lookup(r, "jsonrpc"@) == crate::json::lookup(r.drop_last(), "jsonrpc"@));
    assert(crate::json::lookup(r.drop_last(), "jsonrpc"@) == crate::json::lookup(r.drop_last().drop_last(), "jsonrpc"@));
    assert(crate::json::lookup(r.drop_last().drop_last(), "jsonrpc"@) == crate::json::lookup(r.drop_last().drop_last().drop_last(), "jsonrpc"@));
    let n = seq![("jsonrpc"@, str_json("2.0"@)), ("method"@, str_json(method)), ("params"@, params)];
    assert(n.drop_last().drop_last().drop_last().len() == 0);
    assert(crate::json::lookup(n, "id"@) == crate::json::lookup(n.drop_last(), "id"@));
    assert(crate::json::lookup(n.drop_last(), "id"@) == crate::json::lookup(n.drop_last().drop_last(), "id"@));
    assert(crate::json::lookup(n.drop_last().drop_last(), "id"@) == crate::json::lookup(n.drop_last().drop_last().drop_last(), "id"@));
    assert(crate::json::lookup(n, "method"@) == crate::json::lookup(n.drop_last(), "method"@));
    assert(crate::json::lookup(n, "jsonrpc"@) == crate::json::lookup(n.drop_last(), "jsonrpc"@));
    assert(crate::json::lookup(n.drop_last(), "jsonrpc"@) == crate::json::lookup(n.drop_last().drop_last(), "jsonrpc"@));
}

/// The `initialize` request describes the workspace it is given: when the
/// path has a directory URL (on Unix, an absolute path) it succeeds, with
/// the process id, the path as
/// `rootPath`, its directory URL as `rootUri`, no client capabilities, and
/// one workspace folder with that URL and the directory's name (or
/// `workspace` when the path has no name); otherwise it is refused.
pub proof fn law_initialize_describes_the_workspace(process_id: u32, workspace: Seq<char>)
    ensures
        directory_url(workspace) is None ==> spec_initialize_params(process_id, workspace)
            == Err::<Json, BridgeError>(BridgeError::WorkspaceNotFileUri),
        directory_url(workspace) is Some ==> ({
            let root = directory_url(workspace)->0;
            let p = spec_initialize_params(process_id, workspace)->Ok_0;
            let folders = p.get("workspaceFolders"@)->0;
            &&& spec_initialize_params(process_id, workspace) is Ok
            &&& p.get("processId"@) is Some && p.get("processId"@)->0.as_u64() == Some(process_id as u64)
            &&& p.get("rootPath"@) == Some(Json::String(workspace))
            &&& p.get("rootUri"@) == Some(Json::String(root))
            &&& p.get("capabilities"@) == Some(Json::Object(Seq::empty()))
            &&& p.get("workspaceFolders"@) is Some && folders is Array && folders->Array_0.len() == 1
            &&& folders->Array_0[0].get("uri"@) == Some(Json::String(root))
            &&& folders->Array_0[0].get("name"@) == Some(Json::String(match file_name(workspace) {
                Some(n) => n,
                None => "workspace"@,
            }))
        }),
{
    reveal_strlit("processId");
    reveal_strlit("rootUri");
    reveal_strlit("rootPath");
    reveal_strlit("capabilities");
    reveal_strlit("workspaceFolders");
    reveal_strlit("name");
    reveal_strlit("uri");
    assert("processId"@.len() == 9 && "rootUri"@.len() == 7 && "rootPath"@.len() == 8);
    assert("capabilities"@.len() == 12 && "workspaceFolders"@.len() == 16);
    assert("name"@.len() == 4 && "uri"@.len() == 3);
    if let Some(root) = directory_url(workspace) {
        let f = seq![("name"@, str_json(spec_workspace_name(workspace))), ("uri"@, str_json(root))];
        let m = seq![
            ("processId"@, Json::Number(NumberView::PosInt(process_id as u64))),
            ("rootUri"@, str_json(root)),
            ("rootPath"@, str_json(workspace)),
            ("capabilities"@, obj(Seq::empty())),
            ("workspaceFolders"@, Json::Array(seq![obj(f)])),
        ];
        lemma_lookup_member(m, "processId"@, 0);
        lemma_lookup_member(m, "rootUri"@, 1);
        lemma_lookup_member(m, "rootPath"@, 2);
        lemma_lookup_member(m, "capabilities"@, 3);
        lemma_lookup_member(m, "workspaceFolders"@, 4);
        lemma_lookup_member(f, "name"@, 0);
        lemma_lookup_member(f, "uri"@, 1);
    }
}

} // verus!
