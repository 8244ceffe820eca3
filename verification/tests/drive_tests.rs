use aliyundrive_fuse::drive::make_list_request;
use aliyundrive_fuse::drive::refresh_request_fields;
use aliyundrive_fuse::drive::first_send_plan;
use aliyundrive_fuse::drive::response_has_no_content;
use aliyundrive_fuse::drive::AliyunFile;
use aliyundrive_fuse::drive::DriveConfig;
use aliyundrive_fuse::drive::EnvelopeAction;
use aliyundrive_fuse::drive::FileType;
use aliyundrive_fuse::drive::ListAllSession;
use aliyundrive_fuse::drive::ListFileResponse;
use aliyundrive_fuse::drive::SendOutcome;

fn file_named(name: &str) -> AliyunFile {
    AliyunFile {
        id: format!("id-{}", name),
        name: name.to_string(),
        kind: FileType::File,
        size: 1,
        created_at: 0,
        updated_at: 0,
    }
}

fn config(app_id: Option<&str>) -> DriveConfig {
    DriveConfig {
        api_base_url: "https://api.aliyundrive.com".to_string(),
        refresh_token_url: "https://api.aliyundrive.com/token/refresh".to_string(),
        workdir: None,
        app_id: app_id.map(|s| s.to_string()),
    }
}

#[test]
fn list_request_has_fixed_parameters() {
    let req = make_list_request("d1".to_string(), "root-id".to_string(), Some("m2".to_string()));
    assert_eq!(req.drive_id, "d1");
    assert_eq!(req.parent_file_id, "root-id");
    assert_eq!(req.limit, 200);
    assert!(!req.all);
    assert_eq!(req.image_thumbnail_process, "image/resize,w_400/format,jpeg");
    assert_eq!(req.image_url_process, "image/resize,w_1920/format,jpeg");
    assert_eq!(req.video_thumbnail_process, "video/snapshot,t_0,f_jpg,ar_auto,w_300");
    assert_eq!(req.fields, "*");
    assert_eq!(req.order_by, "updated_at");
    assert_eq!(req.order_direction, "DESC");
    assert_eq!(req.marker, Some("m2".to_string()));
}

#[test]
fn refresh_body_without_app_id() {
    let fields = refresh_request_fields(&config(None), &"TOK".to_string());
    assert_eq!(fields.len(), 2);
    assert_eq!(fields[0], ("refresh_token".to_string(), "TOK".to_string()));
    assert_eq!(fields[1], ("grant_type".to_string(), "refresh_token".to_string()));
}

#[test]
fn refresh_body_with_app_id() {
    let fields = refresh_request_fields(&config(Some("BasicUI")), &"TOK".to_string());
    assert_eq!(fields.len(), 3);
    assert_eq!(fields[2], ("app_id".to_string(), "BasicUI".to_string()));
}

#[test]
fn envelope_refreshes_on_unauthorized() {
    assert_eq!(first_send_plan(&SendOutcome::Http(401)), EnvelopeAction::RefreshThenResend);
}

#[test]
fn envelope_pauses_on_transient_statuses() {
    for status in [408u16, 429, 500, 502, 503, 504] {
        assert_eq!(first_send_plan(&SendOutcome::Http(status)), EnvelopeAction::PauseThenResend);
    }
}

#[test]
fn envelope_fails_on_other_errors() {
    assert_eq!(first_send_plan(&SendOutcome::Http(400)), EnvelopeAction::Fail);
    assert_eq!(first_send_plan(&SendOutcome::Http(403)), EnvelopeAction::Fail);
    assert_eq!(first_send_plan(&SendOutcome::Http(501)), EnvelopeAction::Fail);
    assert_eq!(first_send_plan(&SendOutcome::TransportFailed), EnvelopeAction::Fail);
}

#[test]
fn envelope_delivers_successes() {
    assert_eq!(first_send_plan(&SendOutcome::Http(200)), EnvelopeAction::Deliver);
    assert_eq!(first_send_plan(&SendOutcome::Http(204)), EnvelopeAction::Deliver);
    assert!(response_has_no_content(204));
    assert!(!response_has_no_content(200));
}

#[test]
fn paged_listing_concatenates_in_order() {
    let mut session = ListAllSession::new();
    let mut first_page: Vec<AliyunFile> = Vec::new();
    for i in 0..200 {
        first_page.push(file_named(&format!("f{}", i)));
    }
    let more = session.push_page(ListFileResponse {
        items: first_page,
        next_marker: "m2".to_string(),
    });
    assert_eq!(more, Some("m2".to_string()));
    let mut second_page: Vec<AliyunFile> = Vec::new();
    for i in 200..237 {
        second_page.push(file_named(&format!("f{}", i)));
    }
    let more = session.push_page(ListFileResponse {
        items: second_page,
        next_marker: "".to_string(),
    });
    assert_eq!(more, None);
    let files = session.into_files();
    assert_eq!(files.len(), 237);
    for (i, f) in files.iter().enumerate() {
        assert_eq!(f.name, format!("f{}", i));
    }
}
