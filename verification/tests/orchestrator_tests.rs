use bp_core::orchestrator::{
    after_send, build_dispatch_frame, dispatch_message, internal_error_broadcast, maybe_dispatch,
    parse_worker_event, required_attachments_present, result_broadcast, route_client_message,
    route_worker_event, success_update, terminal_processing_update, ClientCommand,
    DispatchDecision, FetchOutcome, RequestRemoveTask, WorkerEvent, WorkerEventAction,
};
use bp_core::task::BackgroundRemoverTask;

const KEY: &str = "0b0f7df4-7cbe-4f83-960e-e514e46a7d4f";
const GROUP: &str = "5f0c41d8-06c7-47a1-b0f5-d156e0b8e9a3";

fn record(processing: bool) -> BackgroundRemoverTask {
    BackgroundRemoverTask {
        task_id: 7,
        date_created: "2024-01-01 00:00:00 UTC".to_string(),
        key: KEY.to_string(),
        task_group: GROUP.to_string(),
        original_image_path: "media/background-remover/k/original/img.jpg".to_string(),
        preview_original_image_path: Some("media/p.jpg".to_string()),
        mask_image_path: None,
        processed_image_path: None,
        preview_processed_image_path: None,
        processing,
        country: Some("np".to_string()),
        user_identifier: None,
        logs: None,
    }
}

#[test]
fn idempotent_notification_for_completed_task() {
    // completed task, no hard-reprocess override: two dispatches give
    // two identical result notifications and zero worker sends
    let fetched = FetchOutcome::Found(record(true));
    let d1 = maybe_dispatch(GROUP, &fetched, false, "example.com");
    let d2 = maybe_dispatch(GROUP, &fetched, false, "example.com");
    match (&d1, &d2) {
        (DispatchDecision::NotifyResult(v1), DispatchDecision::NotifyResult(v2)) => {
            assert_eq!(v1.key, v2.key);
            assert_eq!(v1.original_image, v2.original_image);
            assert_eq!(v1.processing, v2.processing);
            assert_eq!(v1.task_id, None);
            assert_eq!(v2.task_id, None);
        }
        _ => panic!("expected two result notifications"),
    }
}

#[test]
fn ownership_gate_refuses_foreign_group() {
    let fetched = FetchOutcome::Found(record(false));
    let d = maybe_dispatch("e7a2b9c0-0000-4000-8000-000000000000", &fetched, false, "h");
    assert!(matches!(d, DispatchDecision::NotifyPermissionError));
}

#[test]
fn missing_task_notifies_not_found() {
    let d = maybe_dispatch(GROUP, &FetchOutcome::NotFound, false, "h");
    assert!(matches!(d, DispatchDecision::NotifyNotFound));
    let d = maybe_dispatch(GROUP, &FetchOutcome::StoreError, false, "h");
    assert!(matches!(d, DispatchDecision::NotifyStoreError));
}

#[test]
fn hard_reprocess_overrides_completed() {
    let fetched = FetchOutcome::Found(record(true));
    let d = maybe_dispatch(GROUP, &fetched, true, "h");
    assert!(matches!(d, DispatchDecision::SendToWorker { .. }));
}

#[test]
fn concrete_dispatch_scenario() {
    // Task exists, processing=false: dispatch sends one frame with the
    // task key payload and one attachment, then marks processing
    let fetched = FetchOutcome::Found(record(false));
    let d = maybe_dispatch(GROUP, &fetched, false, "example.com");
    let (task_key, source_rel_path) = match d {
        DispatchDecision::SendToWorker { task_key, source_rel_path } => (task_key, source_rel_path),
        _ => panic!("expected a worker send"),
    };
    assert_eq!(KEY, task_key);
    assert_eq!("media/background-remover/k/original/img.jpg", source_rel_path);

    let frame = build_dispatch_frame(&task_key, "img.jpg", vec![1, 2, 3]);
    assert_eq!(1, frame.attachments.len());
    assert_eq!(b"img.jpg".to_vec(), frame.attachments[0].name);
    assert_eq!(vec![1, 2, 3], frame.attachments[0].data);
    let payload: serde_json::Value =
        serde_json::from_slice(&frame.message).expect("valid JSON payload");
    assert_eq!(Some(KEY), payload.get("task_id").and_then(|x| x.as_str()));

    // send succeeded: processing becomes true
    let update = after_send(&task_key, true).expect("update owed");
    assert_eq!(KEY, update.key);
    assert!(update.processing);

    // a failed send leaves the record alone
    assert!(after_send(&task_key, false).is_none());

    // later inbound success event for the task
    let text = format!("{{\"status\":\"success\",\"task_id\":\"{}\"}}", KEY);
    let ev = parse_worker_event(&text);
    let action = route_worker_event(&ev);
    match action {
        WorkerEventAction::ProcessSuccess { task_key } => assert_eq!(KEY, task_key),
        _ => panic!("expected the success path"),
    }

    // two attachments suffice: processed and mask, the preview is
    // optional; one is not enough
    assert!(required_attachments_present(2));
    assert!(required_attachments_present(3));
    assert!(!required_attachments_present(1));

    // the record update turns absolute save paths relative again
    let u = success_update(
        "/srv/media",
        KEY,
        "/srv/media/background-remover/k/transparent/img.png",
        "/srv/media/background-remover/k/mask/img.png",
        "/srv/media/background-remover/k/preview-transparent/img.png",
        None,
    );
    assert_eq!(KEY, u.key);
    assert_eq!("media/background-remover/k/transparent/img.png", u.processed_image_path);
    assert_eq!("media/background-remover/k/mask/img.png", u.mask_image_path);
    assert_eq!(
        "media/background-remover/k/preview-transparent/img.png",
        u.preview_processed_image_path
    );

    // terminal outcome clears processing
    let done = terminal_processing_update(KEY);
    assert_eq!(KEY, done.key);
    assert!(!done.processing);

    // and the broadcast carries the serialized fresh record
    let mut fresh = record(false);
    fresh.processed_image_path = Some("media/background-remover/k/transparent/img.png".to_string());
    let b = result_broadcast(&fresh, "example.com");
    assert_eq!("success", b.status);
    assert_eq!("result", b.status_code);
    let data = b.data.expect("result data");
    assert_eq!(
        Some("https://example.com/media/background-remover/k/transparent/img.png".to_string()),
        data.processed_image
    );
    assert!(!data.processing);
}

#[test]
fn unknown_status_takes_failure_path() {
    let text = format!("{{\"status\":\"weird_value\",\"task_id\":\"{}\"}}", KEY);
    let weird = route_worker_event(&parse_worker_event(&text));
    let text = format!("{{\"status\":\"failed\",\"task_id\":\"{}\"}}", KEY);
    let failed = route_worker_event(&parse_worker_event(&text));
    match (&weird, &failed) {
        (
            WorkerEventAction::ReportFailure { task_key: k1 },
            WorkerEventAction::ReportFailure { task_key: k2 },
        ) => assert_eq!(k1, k2),
        _ => panic!("both must take the failure path"),
    }
    // the failure broadcast hides the real reason
    let b = internal_error_broadcast();
    assert_eq!("failed", b.status);
    assert_eq!("internal_server_error", b.status_code);
    // the processing flag is cleared, as for any terminal outcome
    assert!(!terminal_processing_update(KEY).processing);
}

#[test]
fn progress_updates_forward_without_persistence() {
    let text = format!("{{\"status\":\"progress_update\",\"task_id\":\"{}\"}}", KEY);
    let ev = parse_worker_event(&text);
    assert_eq!(text, ev.raw);
    match route_worker_event(&ev) {
        WorkerEventAction::ForwardProgress { task_key } => assert_eq!(KEY, task_key),
        _ => panic!("expected the progress path"),
    }
}

#[test]
fn malformed_worker_events_are_discarded() {
    // not JSON
    let ev = parse_worker_event("not json at all");
    assert!(ev.status.is_none());
    assert!(ev.task_key.is_none());
    assert!(matches!(route_worker_event(&ev), WorkerEventAction::Discard));
    // missing task id
    let ev = parse_worker_event("{\"status\":\"success\"}");
    assert!(matches!(route_worker_event(&ev), WorkerEventAction::Discard));
    // ill-formed task id
    let ev = parse_worker_event("{\"status\":\"success\",\"task_id\":\"nope\"}");
    assert!(matches!(route_worker_event(&ev), WorkerEventAction::Discard));
}

#[test]
fn client_message_routing() {
    assert!(matches!(
        route_client_message("{oops"),
        ClientCommand::ReplyInvalidFormat
    ));
    assert!(matches!(route_client_message("{}"), ClientCommand::Ignore));
    assert!(matches!(
        route_client_message("{\"key\":17}"),
        ClientCommand::Ignore
    ));
    assert!(matches!(
        route_client_message("{\"key\":\"not-a-uuid\"}"),
        ClientCommand::ReplyInvalidKey
    ));
    match route_client_message(&format!("{{\"key\":\"{}\"}}", KEY)) {
        ClientCommand::Dispatch(k) => assert_eq!(KEY, k),
        _ => panic!("expected a dispatch"),
    }
}

#[test]
fn dispatch_message_shape() {
    assert_eq!("{\"task_id\":\"t-1\"}", dispatch_message("t-1"));
}

#[test]
fn remove_task_request_carries_key() {
    let r = RequestRemoveTask::now(KEY.to_string());
    assert_eq!(KEY, r.task_id);
}
