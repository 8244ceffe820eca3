use aliyundrive_fuse::token::AttemptOutcome;
use aliyundrive_fuse::token::Credentials;
use aliyundrive_fuse::token::RefreshAction;
use aliyundrive_fuse::token::RefreshInfo;
use aliyundrive_fuse::token::RefreshSession;
use aliyundrive_fuse::token::bootstrap_ready;
use aliyundrive_fuse::token::next_refresh_delay;
use aliyundrive_fuse::token::retryable_failure;
use aliyundrive_fuse::token::DEFAULT_REFRESH_DELAY_SECS;

fn sample_info() -> RefreshInfo {
    RefreshInfo {
        refresh_token: "NEW".to_string(),
        access_token: "A1".to_string(),
        expires_in: 7200,
        default_drive_id: "d1".to_string(),
        nick_name: "alice".to_string(),
    }
}

fn failure_with_status(status: u16) -> AttemptOutcome {
    AttemptOutcome::Failure { connect_error: false, timed_out: false, status: Some(status) }
}

#[test]
fn refresh_success_updates_cell() {
    let mut cell = Credentials::new("OLD".to_string());
    assert_eq!(cell.current_refresh_token(), "OLD".to_string());
    assert!(cell.current_access_token().is_none());
    let info = sample_info();
    cell.apply_refresh(info.refresh_token.clone(), info.access_token.clone());
    assert_eq!(cell.current_refresh_token(), "NEW".to_string());
    assert_eq!(cell.current_access_token(), Some("A1".to_string()));
}

#[test]
fn access_token_stays_present_after_further_refreshes() {
    let mut cell = Credentials::new("OLD".to_string());
    cell.apply_refresh("R1".to_string(), "A1".to_string());
    cell.apply_refresh("R2".to_string(), "A2".to_string());
    assert_eq!(cell.current_access_token(), Some("A2".to_string()));
}

#[test]
fn retryable_classification() {
    assert!(retryable_failure(true, false, None));
    assert!(retryable_failure(false, true, None));
    assert!(retryable_failure(false, false, Some(429)));
    assert!(!retryable_failure(false, false, Some(400)));
    assert!(!retryable_failure(false, false, Some(500)));
    assert!(!retryable_failure(false, false, None));
}

#[test]
fn nine_rate_limits_then_success_is_success() {
    let mut session = RefreshSession::new("TOKEN".to_string(), None);
    for _ in 0..9 {
        let action = session.step(&failure_with_status(429));
        assert_eq!(action, RefreshAction::Retry { warn: true });
        assert_eq!(session.next_token(), "TOKEN".to_string());
    }
    let action = session.step(&AttemptOutcome::Success(sample_info()));
    assert_eq!(action, RefreshAction::Done);
}

#[test]
fn ten_rate_limits_give_up() {
    let mut session = RefreshSession::new("TOKEN".to_string(), None);
    for _ in 0..9 {
        let action = session.step(&failure_with_status(429));
        assert_eq!(action, RefreshAction::Retry { warn: true });
    }
    let action = session.step(&failure_with_status(429));
    assert_eq!(action, RefreshAction::GiveUp);
}

#[test]
fn bad_token_swaps_in_persisted_one_silently() {
    let mut session = RefreshSession::new("BAD".to_string(), Some("GOOD".to_string()));
    let action = session.step(&failure_with_status(400));
    assert_eq!(action, RefreshAction::Retry { warn: false });
    assert_eq!(session.next_token(), "GOOD".to_string());
    let action = session.step(&AttemptOutcome::Success(sample_info()));
    assert_eq!(action, RefreshAction::Done);
}

#[test]
fn persisted_token_is_trimmed_on_swap() {
    let mut session = RefreshSession::new("BAD".to_string(), Some("  GOOD\n".to_string()));
    let action = session.step(&failure_with_status(400));
    assert_eq!(action, RefreshAction::Retry { warn: false });
    assert_eq!(session.next_token(), "GOOD".to_string());
}

#[test]
fn non_retryable_without_bootstrap_gives_up() {
    let mut session = RefreshSession::new("TOKEN".to_string(), None);
    let action = session.step(&failure_with_status(400));
    assert_eq!(action, RefreshAction::GiveUp);
}

#[test]
fn non_retryable_with_equal_bootstrap_gives_up() {
    let mut session = RefreshSession::new("SAME".to_string(), Some("SAME".to_string()));
    let action = session.step(&failure_with_status(400));
    assert_eq!(action, RefreshAction::GiveUp);
}

#[test]
fn refresh_delay_subtracts_margin() {
    assert_eq!(next_refresh_delay(7200), 7000);
    assert_eq!(next_refresh_delay(200), 0);
    assert_eq!(DEFAULT_REFRESH_DELAY_SECS, 7000);
}

#[test]
fn empty_drive_id_is_fatal() {
    assert!(!bootstrap_ready(&"".to_string()));
    assert!(bootstrap_ready(&"d1".to_string()));
}
