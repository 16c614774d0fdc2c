use bp_core::envelope::build_standard_response;
use bp_core::forms::{upload_size_ok, validate_upload_form, UploadFormInput, UploadFormOutcome};
use bp_core::task::BackgroundRemoverTask;

fn record() -> BackgroundRemoverTask {
    BackgroundRemoverTask {
        task_id: 41,
        date_created: "2024-05-01 10:00:00 UTC".to_string(),
        key: "k-1".to_string(),
        task_group: "g-1".to_string(),
        original_image_path: "media/a/original/img.jpg".to_string(),
        preview_original_image_path: Some("media/a/preview-original/img.jpg".to_string()),
        mask_image_path: Some("media/a/mask/img.png".to_string()),
        processed_image_path: None,
        preview_processed_image_path: None,
        processing: false,
        country: Some("np".to_string()),
        user_identifier: Some("u".to_string()),
        logs: Some("{}".to_string()),
    }
}

#[test]
fn serialize_builds_full_urls_and_hides_private_fields() {
    let v = record().serialize("example.com");
    assert_eq!(None, v.task_id);
    assert_eq!(None, v.country);
    assert_eq!(None, v.logs);
    assert_eq!("https://example.com/media/a/original/img.jpg", v.original_image);
    assert_eq!(
        Some("https://example.com/media/a/preview-original/img.jpg".to_string()),
        v.preview_original_image
    );
    assert_eq!(
        Some("https://example.com/media/a/mask/img.png".to_string()),
        v.mask_image
    );
    assert_eq!(None, v.processed_image);
    assert_eq!("k-1", v.key);
    assert_eq!("g-1", v.task_group);
    assert!(!v.processing);
}

#[test]
fn serialize_full_keeps_private_fields() {
    let v = record().serialize_full("example.com");
    assert_eq!(Some(41), v.task_id);
    assert_eq!(Some("np".to_string()), v.country);
    assert_eq!(Some("{}".to_string()), v.logs);
    assert_eq!(Some("u".to_string()), v.user_identifier);
}

#[test]
fn standard_response_keeps_optional_fields_absent() {
    let r = build_standard_response("pending", "result", Some("wait"), None, None);
    assert_eq!("pending", r.status);
    assert_eq!("result", r.status_code);
    assert_eq!(Some("wait".to_string()), r.message);
    assert!(r.data.is_none());
    assert!(r.errors.is_none());
}

#[test]
fn upload_form_validation() {
    let out = validate_upload_form(&UploadFormInput {
        task_group: None,
        has_original_image: true,
        country: None,
    });
    assert!(matches!(out, UploadFormOutcome::MissingTaskGroup));

    let out = validate_upload_form(&UploadFormInput {
        task_group: Some("g".to_string()),
        has_original_image: false,
        country: None,
    });
    assert!(matches!(out, UploadFormOutcome::MissingImage));

    match validate_upload_form(&UploadFormInput {
        task_group: Some("g".to_string()),
        has_original_image: true,
        country: Some("fr".to_string()),
    }) {
        UploadFormOutcome::Valid { task_group, country } => {
            assert_eq!("g", task_group);
            assert_eq!(Some("fr".to_string()), country);
        }
        _ => panic!("expected a valid form"),
    }
}

#[test]
fn upload_size_cap() {
    assert!(upload_size_ok(60 * 1024 * 1024));
    assert!(!upload_size_ok(60 * 1024 * 1024 + 1));
}
