//! The task orchestrator: the one place that decides whether a task is
//! sent to the worker, and the one consumer of the inbound event
//! stream.
//!
//! The durable store and every transport are external collaborators:
//! the caller fetches records, saves files, writes updates and performs
//! the broadcasts, and hands the outcomes in as plain values; each
//! decision between those steps is taken and proven here.

use vstd::prelude::*;
use crate::envelope::{StandardResponse, build_standard_response};
use crate::frame::{Frame, frame_wf, NORMAL_STATUS, PROTOCOL_VERSION};
use crate::paths::relative_media_url_from_full_path;
use crate::paths::spec_relative_media_url;
use crate::task::{BackgroundRemoverTask, TaskView, UpdateBackgroundRemoverTask, view_of_opt};
use crate::text::{spec_json_string, push_json_string, str_eq};

verus! {

/// Whether a text is valid JSON, exactly as serde_json decides it; the
/// answer depends on the text alone.
pub uninterp spec fn json_parses(s: Seq<char>) -> bool;

/// The string field a JSON text carries under a key: what serde_json
/// extracts when the text is an object holding a string there, absent
/// otherwise. A function of the text and the key alone.
pub uninterp spec fn json_str_field(s: Seq<char>, key: Seq<char>) -> Option<Seq<char>>;

/// Relies on serde_json::from_str::<Value>: parsing succeeds exactly on
/// valid JSON text, and on nothing else.
#[verifier::external_body]
fn json_is_valid(s: &str) -> (r: bool)
    ensures
        r == json_parses(s@),
{
    serde_json::from_str::<serde_json::Value>(s).is_ok()
}

/// Relies on serde_json::from_str::<Value>, Value::get and
/// Value::as_str: the string field of a JSON object under `key`, and
/// nothing on a text that does not parse, is no object, lacks the key,
/// or holds a non-string there.
#[verifier::external_body]
fn json_string_field(text: &str, key: &str) -> (r: Option<String>)
    ensures
        view_of_opt(r) == json_str_field(text@, key@),
        !json_parses(text@) ==> r is None,
{
    match serde_json::from_str::<serde_json::Value>(text) {
        Ok(v) => match v.get(key) {
            Some(field) => match field.as_str() {
                Some(s) => Some(s.to_string()),
                None => None,
            },
            None => None,
        },
        Err(_) => None,
    }
}

/// Whether a text is a well-formed UUID, exactly as the uuid crate
/// decides it; the answer depends on the text alone.
pub uninterp spec fn uuid_valid(s: Seq<char>) -> bool;

/// Relies on uuid::Uuid::parse_str: acceptance decides the validity of
/// a task key, and depends on the text alone.
#[verifier::external_body]
fn is_valid_uuid(s: &str) -> (r: bool)
    ensures
        r == uuid_valid(s@),
{
    uuid::Uuid::parse_str(s).is_ok()
}

/// Relies on chrono::Utc::now: the current Unix timestamp. Nothing is
/// promised of the clock's reading. One environmental hole in the
/// no-panic promise: chrono itself panics on a system clock set before
/// the Unix epoch.
#[verifier::external_body]
fn unix_timestamp_now() -> (r: i64) {
    chrono::Utc::now().timestamp()
}

/// Timestamps carried in an outbound worker request.
pub struct Timestamps {
    pub request_client_to_bp_server_sent: i64,
}

/// The outbound request naming a task for background removal.
pub struct RequestRemoveTask {
    pub task_id: String,
    pub timestamps: Timestamps,
}

impl RequestRemoveTask {
    /// A request stamped with the moment it is built.
    pub fn now(task_id: String) -> (r: RequestRemoveTask)
        ensures
            r.task_id@ == task_id@,
    {
        RequestRemoveTask {
            task_id,
            timestamps: Timestamps { request_client_to_bp_server_sent: unix_timestamp_now() },
        }
    }
}

/// What the store reported for a fetch by key.
pub enum FetchOutcome {
    Found(BackgroundRemoverTask),
    NotFound,
    /// The store failed for another reason than a missing row.
    StoreError,
}

/// What `maybe_dispatch` decided.
pub enum DispatchDecision {
    /// Notify the caller's group: no task under this key.
    NotifyNotFound,
    /// Notify the caller's group with the generic internal error.
    NotifyStoreError,
    /// Notify the caller's group that the task belongs to another group.
    NotifyPermissionError,
    /// No processing needed: notify the group with the serialized
    /// current record at once, no worker round-trip.
    NotifyResult(TaskView),
    /// Read the source file and send one frame keyed by the task to
    /// the worker; on a successful send persist `processing = true`.
    SendToWorker { task_key: String, source_rel_path: String },
}

/// The dispatch decision for a task key, given what the store returned
/// for it: absent keys and foreign groups are refused, a completed task
/// is answered immediately from the record, and only a task that needs
/// processing (the hard-reprocess override set, or its `processing`
/// gate clear) goes to the worker.
pub fn maybe_dispatch(group: &str, fetched: &FetchOutcome, hard_reprocess: bool, host: &str) -> (d:
    DispatchDecision)
    ensures
        match fetched {
            FetchOutcome::NotFound => d is NotifyNotFound,
            FetchOutcome::StoreError => d is NotifyStoreError,
            FetchOutcome::Found(t) => {
                if t.task_group@ != group@ {
                    d is NotifyPermissionError
                } else if !(hard_reprocess || !t.processing) {
                    d matches DispatchDecision::NotifyResult(v) && t.spec_view_of(
                        host@,
                        v,
                        false,
                    )
                } else {
                    d matches DispatchDecision::SendToWorker { task_key, source_rel_path }
                        && task_key@ == t.key@ && source_rel_path@ == t.original_image_path@
                }
            },
        },
{
    match fetched {
        FetchOutcome::NotFound => DispatchDecision::NotifyNotFound,
        FetchOutcome::StoreError => DispatchDecision::NotifyStoreError,
        FetchOutcome::Found(t) => {
            if !str_eq(t.task_group.as_str(), group) {
                DispatchDecision::NotifyPermissionError
            } else {
                let needs_processing = hard_reprocess || !t.processing;
                if !needs_processing {
                    DispatchDecision::NotifyResult(t.serialize(host))
                } else {
                    DispatchDecision::SendToWorker {
                        task_key: t.key.clone(),
                        source_rel_path: t.original_image_path.clone(),
                    }
                }
            }
        },
    }
}

/// The record update owed after a send attempt: a successful send
/// persists `processing = true`; a failed one changes nothing, so a
/// later retry stays possible, and notifies nobody.
pub struct ProcessingUpdate {
    pub key: String,
    pub processing: bool,
}

pub fn after_send(task_key: &str, send_ok: bool) -> (r: Option<ProcessingUpdate>)
    ensures
        send_ok ==> (r matches Some(u) && u.key@ == task_key@ && u.processing == true),
        !send_ok ==> r is None,
{
    if send_ok {
        Some(ProcessingUpdate { key: task_key.to_owned(), processing: true })
    } else {
        None
    }
}

/// The payload of an outbound dispatch: `{"task_id":<key>}`.
pub open spec fn spec_dispatch_json(key: Seq<char>) -> Seq<char> {
    "{\"task_id\":"@ + spec_json_string(key) + "}"@
}

/// Builds the dispatch message naming the task.
pub fn dispatch_message(task_key: &str) -> (r: String)
    ensures
        r@ == spec_dispatch_json(task_key@),
{
    let mut out = String::new();
    out.append("{\"task_id\":");
    push_json_string(&mut out, task_key);
    out.append("}");
    out
}

/// The outbound dispatch frame: a normal-status unit whose payload
/// names the task and whose one attachment carries the source image
/// bytes under its original filename.
pub fn build_dispatch_frame(task_key: &str, filename: &str, file_bytes: Vec<u8>) -> (f: Frame)
    requires
        vstd::utf8::encode_utf8(spec_dispatch_json(task_key@)).len() <= 0xFFFF_FFFF,
        vstd::utf8::encode_utf8(filename@).len() <= 0xFFFF_FFFF,
        file_bytes@.len() <= 0xFFFF_FFFF,
    ensures
        f.status == NORMAL_STATUS,
        f.version == PROTOCOL_VERSION,
        f.attachments@.len() == 1,
        f.attachments@[0].name@ == vstd::utf8::encode_utf8(filename@),
        f.attachments@[0].data@ == file_bytes@,
        f.message@ == vstd::utf8::encode_utf8(spec_dispatch_json(task_key@)),
        frame_wf(f),
{
    let msg = dispatch_message(task_key);
    let name = filename.as_bytes_vec();
    let mut attachments: Vec<crate::frame::Attachment> = Vec::new();
    attachments.push(crate::frame::Attachment { name, data: file_bytes });
    Frame {
        status: NORMAL_STATUS,
        version: PROTOCOL_VERSION,
        attachments,
        message: msg.as_str().as_bytes_vec(),
    }
}

/// One inbound worker event, its routing fields extracted from the
/// payload; `raw` keeps the payload text for forwarding unchanged.
pub struct WorkerEvent {
    pub task_key: Option<String>,
    pub status: Option<String>,
    pub raw: String,
}

/// Extracts `task_id` and `status` from an inbound payload text:
/// exactly the string fields serde_json reads under those keys, nothing
/// on invalid JSON; `raw` keeps the text unchanged.
pub fn parse_worker_event(text: &str) -> (r: WorkerEvent)
    ensures
        view_of_opt(r.task_key) == json_str_field(text@, "task_id"@),
        view_of_opt(r.status) == json_str_field(text@, "status"@),
        !json_parses(text@) ==> r.task_key is None && r.status is None,
        r.raw@ == text@,
{
    WorkerEvent {
        task_key: json_string_field(text, "task_id"),
        status: json_string_field(text, "status"),
        raw: text.to_owned(),
    }
}

/// The three classes an inbound status falls into; anything that is
/// neither success nor progress is handled as a failure.
#[derive(Clone, Copy, Debug, PartialEq, Eq, Structural)]
pub enum StatusClass {
    Success,
    Progress,
    Failure,
}

pub open spec fn spec_status_class(status: Seq<char>) -> StatusClass {
    if status == "success"@ {
        StatusClass::Success
    } else if status == "progress_update"@ {
        StatusClass::Progress
    } else {
        StatusClass::Failure
    }
}

/// What the event loop must do for one inbound worker event.
pub enum WorkerEventAction {
    /// Malformed event (missing or ill-formed status or task key): log
    /// and drop it; no subscriber is notified, since the worker
    /// misbehaved, not the client.
    Discard,
    /// Save the result attachments, update the record, clear
    /// `processing`, re-fetch, and broadcast the result to the group.
    ProcessSuccess { task_key: String },
    /// Look the task up only for its group and forward the raw payload
    /// unchanged; nothing is persisted.
    ForwardProgress { task_key: String },
    /// Clear `processing` and broadcast the generic internal error to
    /// the group; the real detail is logged, never exposed.
    ReportFailure { task_key: String },
}

/// Routes one inbound event: events without a status or without a
/// well-formed task key are discarded; the rest go by status class.
pub fn route_worker_event(ev: &WorkerEvent) -> (a: WorkerEventAction)
    ensures
        match (ev.status, ev.task_key) {
            (Some(s), Some(k)) => {
                if !uuid_valid(k@) {
                    a is Discard
                } else {
                    match spec_status_class(s@) {
                        StatusClass::Success => a
                            matches WorkerEventAction::ProcessSuccess { task_key } && task_key@
                            == k@,
                        StatusClass::Progress => a
                            matches WorkerEventAction::ForwardProgress { task_key } && task_key@
                            == k@,
                        StatusClass::Failure => a
                            matches WorkerEventAction::ReportFailure { task_key } && task_key@
                            == k@,
                    }
                }
            },
            _ => a is Discard,
        },
{
    let status = match &ev.status {
        Some(s) => s,
        None => {
            return WorkerEventAction::Discard;
        },
    };
    let key = match &ev.task_key {
        Some(k) => k,
        None => {
            return WorkerEventAction::Discard;
        },
    };
    if !is_valid_uuid(key.as_str()) {
        return WorkerEventAction::Discard;
    }
    if str_eq(status.as_str(), "success") {
        WorkerEventAction::ProcessSuccess { task_key: key.clone() }
    } else if str_eq(status.as_str(), "progress_update") {
        WorkerEventAction::ForwardProgress { task_key: key.clone() }
    } else {
        WorkerEventAction::ReportFailure { task_key: key.clone() }
    }
}

/// A terminal outcome always clears the task's `processing` gate; a
/// progress update never touches it.
pub fn terminal_processing_update(task_key: &str) -> (r: ProcessingUpdate)
    ensures
        r.key@ == task_key@,
        r.processing == false,
{
    ProcessingUpdate { key: task_key.to_owned(), processing: false }
}

/// Whether an inbound success carries enough attachments: the
/// processed image and the mask are required, the preview is optional
/// and falls back to the processed image when absent — so two suffice.
pub fn required_attachments_present(n_files: usize) -> (r: bool)
    ensures
        r == (n_files >= 2),
{
    n_files >= 2
}

/// The record update a successful processing cycle persists: the three
/// absolute save paths turned back into media-root-relative ones, and
/// the logs carried through.
pub fn success_update(
    media_root: &str,
    key: &str,
    transparent_abs: &str,
    mask_abs: &str,
    preview_abs: &str,
    logs: Option<String>,
) -> (r: UpdateBackgroundRemoverTask)
    ensures
        r.key@ == key@,
        r.processed_image_path@ == spec_relative_media_url(media_root@, transparent_abs@),
        r.mask_image_path@ == spec_relative_media_url(media_root@, mask_abs@),
        r.preview_processed_image_path@ == spec_relative_media_url(media_root@, preview_abs@),
        r.logs == logs,
{
    UpdateBackgroundRemoverTask {
        key: key.to_owned(),
        processed_image_path: relative_media_url_from_full_path(media_root, transparent_abs),
        mask_image_path: relative_media_url_from_full_path(media_root, mask_abs),
        preview_processed_image_path: relative_media_url_from_full_path(media_root, preview_abs),
        logs,
    }
}

/// The result broadcast sent to a task's group: the serialized fresh
/// record under `status_code = "result"`.
pub fn result_broadcast(task: &BackgroundRemoverTask, host: &str) -> (r: StandardResponse)
    ensures
        r.status@ == "success"@,
        r.status_code@ == "result"@,
        r.message is None,
        r.data matches Some(v) && task.spec_view_of(host@, v, false),
        r.errors is None,
{
    let view = task.serialize(host);
    build_standard_response("success", "result", None, Some(view), None)
}

/// The deliberately generic failure broadcast: subscribers never see
/// internal error text.
pub fn internal_error_broadcast() -> (r: StandardResponse)
    ensures
        r.status@ == "failed"@,
        r.status_code@ == "internal_server_error"@,
        r.message matches Some(m) && m@ == "Failed to process image. Reason: Internal Server Error"@,
        r.data is None,
        r.errors is None,
{
    build_standard_response(
        "failed",
        "internal_server_error",
        Some("Failed to process image. Reason: Internal Server Error"),
        None,
        None,
    )
}

/// The refusal sent when a task key exists under another group.
pub fn permission_error_message() -> (r: StandardResponse)
    ensures
        r.status@ == "failed"@,
        r.status_code@ == "permission_error"@,
        r.message matches Some(m) && m@
            == "This task_group does not have permission to process image with this key."@,
        r.data is None,
        r.errors is None,
{
    build_standard_response(
        "failed",
        "permission_error",
        Some("This task_group does not have permission to process image with this key."),
        None,
        None,
    )
}

/// The refusal sent when no task exists under the key.
pub fn not_found_message() -> (r: StandardResponse)
    ensures
        r.status@ == "failed"@,
        r.status_code@ == "not_found"@,
        r.message matches Some(m) && m@ == "Image with this key does not exist."@,
        r.data is None,
        r.errors is None,
{
    build_standard_response(
        "failed",
        "not_found",
        Some("Image with this key does not exist."),
        None,
        None,
    )
}

/// The refusal sent for a text that is not valid JSON.
pub fn invalid_format_message() -> (r: StandardResponse)
    ensures
        r.status@ == "failed"@,
        r.status_code@ == "invalid_message_format"@,
        r.message matches Some(m) && m@ == "Not a valid message format. Expected type JSON."@,
        r.data is None,
        r.errors is None,
{
    build_standard_response(
        "failed",
        "invalid_message_format",
        Some("Not a valid message format. Expected type JSON."),
        None,
        None,
    )
}

/// The refusal sent for a key that is not a well-formed UUID.
pub fn invalid_key_message() -> (r: StandardResponse)
    ensures
        r.status@ == "failed"@,
        r.status_code@ == "invalid_message_format"@,
        r.message matches Some(m) && m@ == "Invalid key format."@,
        r.data is None,
        r.errors is None,
{
    build_standard_response(
        "failed",
        "invalid_message_format",
        Some("Invalid key format."),
        None,
        None,
    )
}

/// What a subscriber's text message asks of the orchestrator.
pub enum ClientCommand {
    /// The text is not JSON: answer with the invalid-format refusal.
    ReplyInvalidFormat,
    /// No usable `key` field: silently ignore.
    Ignore,
    /// A `key` that is no UUID: answer with the invalid-key refusal.
    ReplyInvalidKey,
    /// Run the dispatch flow for this key.
    Dispatch(String),
}

/// The decision on an extracted `key` field: absent or non-string keys
/// are silently ignored, a key that is no UUID is refused, and only a
/// well-formed one starts the dispatch flow.
pub fn route_key_field(key: Option<String>) -> (c: ClientCommand)
    ensures
        match key {
            None => c is Ignore,
            Some(k) => {
                if uuid_valid(k@) {
                    c matches ClientCommand::Dispatch(k2) && k2@ == k@
                } else {
                    c is ReplyInvalidKey
                }
            },
        },
{
    match key {
        None => ClientCommand::Ignore,
        Some(k) => {
            if is_valid_uuid(k.as_str()) {
                ClientCommand::Dispatch(k)
            } else {
                ClientCommand::ReplyInvalidKey
            }
        },
    }
}

/// Routes one text message of a subscriber: only a JSON object with a
/// string `key` holding a well-formed UUID starts a dispatch, and the
/// dispatched key is exactly the extracted field.
pub fn route_client_message(text: &str) -> (c: ClientCommand)
    ensures
        c is ReplyInvalidFormat <==> !json_parses(text@),
        c matches ClientCommand::Dispatch(k) ==> uuid_valid(k@),
        json_parses(text@) ==> match json_str_field(text@, "key"@) {
            None => c is Ignore,
            Some(k) => {
                if uuid_valid(k) {
                    c matches ClientCommand::Dispatch(k2) && k2@ == k
                } else {
                    c is ReplyInvalidKey
                }
            },
        },
{
    if !json_is_valid(text) {
        return ClientCommand::ReplyInvalidFormat;
    }
    let key = json_string_field(text, "key");
    route_key_field(key)
}

/// Content equality of two task views, field by field.
pub open spec fn task_views_match(a: TaskView, b: TaskView) -> bool {
    &&& a.task_id == b.task_id
    &&& a.date_created@ == b.date_created@
    &&& a.key@ == b.key@
    &&& a.task_group@ == b.task_group@
    &&& a.original_image@ == b.original_image@
    &&& crate::task::view_of_opt(a.preview_original_image) == crate::task::view_of_opt(
        b.preview_original_image,
    )
    &&& crate::task::view_of_opt(a.processed_image) == crate::task::view_of_opt(b.processed_image)
    &&& crate::task::view_of_opt(a.preview_processed_image) == crate::task::view_of_opt(
        b.preview_processed_image,
    )
    &&& crate::task::view_of_opt(a.mask_image) == crate::task::view_of_opt(b.mask_image)
    &&& a.processing == b.processing
    &&& crate::task::view_of_opt(a.user_identifier) == crate::task::view_of_opt(b.user_identifier)
    &&& crate::task::view_of_opt(a.country) == crate::task::view_of_opt(b.country)
    &&& crate::task::view_of_opt(a.logs) == crate::task::view_of_opt(b.logs)
}

/// Idempotent notification: a task already completed (its `processing`
/// gate set) and no hard-reprocess override makes `maybe_dispatch`
/// answer with a result notification — never a worker send — and two
/// such dispatches in a row carry identical payloads.
pub proof fn lemma_idempotent_notification(
    t: BackgroundRemoverTask,
    host: Seq<char>,
    v1: TaskView,
    v2: TaskView,
)
    requires
        t.processing == true,
        t.spec_view_of(host, v1, false),
        t.spec_view_of(host, v2, false),
    ensures
        task_views_match(v1, v2),
{
}

/// Unknown-status handling: a status the orchestrator does not
/// recognize falls in the same class as an explicit `"failed"`, so the
/// event takes exactly the failure path: the same generic broadcast,
/// and the `processing` gate cleared as for any terminal outcome.
pub proof fn lemma_unknown_status_like_failed()
    ensures
        spec_status_class("weird_value"@) == spec_status_class("failed"@),
        spec_status_class("weird_value"@) == StatusClass::Failure,
{
    reveal_strlit("weird_value");
    reveal_strlit("failed");
    reveal_strlit("success");
    reveal_strlit("progress_update");
    assert("weird_value"@.len() == 11);
    assert("failed"@.len() == 6);
    assert("success"@.len() == 7);
    assert("progress_update"@.len() == 15);
    assert("weird_value"@ != "success"@);
    assert("weird_value"@ != "progress_update"@);
    assert("failed"@ != "success"@);
    assert("failed"@ != "progress_update"@);
}

} // verus!
