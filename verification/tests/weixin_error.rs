use zeroclaw::channels::weixin::error::{
    ErrorCategory, ILinkErrorCode, ILinkErrorResponse, RetryPolicy,
};

const ALL: [ILinkErrorCode; 13] = [
    ILinkErrorCode::Success,
    ILinkErrorCode::GenericError,
    ILinkErrorCode::SessionTimeout,
    ILinkErrorCode::InvalidToken,
    ILinkErrorCode::RateLimited,
    ILinkErrorCode::UserNotFound,
    ILinkErrorCode::MessageTooLong,
    ILinkErrorCode::InvalidMediaType,
    ILinkErrorCode::FileTooLarge,
    ILinkErrorCode::UploadFailed,
    ILinkErrorCode::ContentBlocked,
    ILinkErrorCode::NetworkError,
    ILinkErrorCode::Unknown,
];

#[test]
fn test_error_code_parsing() {
    assert_eq!(ILinkErrorCode::from_code(0), ILinkErrorCode::Success);
    assert_eq!(ILinkErrorCode::from_code(-14), ILinkErrorCode::SessionTimeout);
    assert_eq!(ILinkErrorCode::from_code(-20), ILinkErrorCode::InvalidToken);
    assert_eq!(ILinkErrorCode::from_code(-999), ILinkErrorCode::Unknown);
}

#[test]
fn test_is_retryable() {
    assert!(ILinkErrorCode::SessionTimeout.is_retryable());
    assert!(ILinkErrorCode::RateLimited.is_retryable());
    assert!(!ILinkErrorCode::InvalidToken.is_retryable());
    assert!(!ILinkErrorCode::MessageTooLong.is_retryable());
}

#[test]
fn test_requires_reauth() {
    assert!(ILinkErrorCode::InvalidToken.requires_reauth());
    assert!(!ILinkErrorCode::SessionTimeout.requires_reauth());
}

#[test]
fn test_error_category() {
    let cat: ErrorCategory = (&ILinkErrorCode::SessionTimeout).into();
    assert_eq!(cat, ErrorCategory::Transient);

    let cat: ErrorCategory = (&ILinkErrorCode::InvalidToken).into();
    assert_eq!(cat, ErrorCategory::Auth);
}

#[test]
fn codes_are_read_back() {
    for code in ALL {
        if code != ILinkErrorCode::NetworkError {
            assert_eq!(ILinkErrorCode::from_code(code.code()), code);
            assert_eq!(ILinkErrorCode::from(code.code()), code);
        }
    }
    assert_eq!(ILinkErrorCode::NetworkError.code(), -900);
    assert_eq!(ILinkErrorCode::from_code(-900), ILinkErrorCode::Unknown);
}

#[test]
fn delays_are_recommended_for_what_can_be_retried() {
    for code in ALL {
        assert_eq!(code.recommended_retry_delay_ms().is_some(), code.is_retryable());
    }
    assert_eq!(ILinkErrorCode::SessionTimeout.recommended_retry_delay_ms(), Some(0));
    assert_eq!(ILinkErrorCode::RateLimited.recommended_retry_delay_ms(), Some(60_000));
    assert_eq!(ILinkErrorCode::NetworkError.recommended_retry_delay_ms(), Some(5_000));
    assert_eq!(ILinkErrorCode::UploadFailed.recommended_retry_delay_ms(), Some(10_000));
}

#[test]
fn every_code_has_words() {
    for code in ALL {
        assert!(!code.description().is_empty());
        assert!(!code.suggested_action().is_empty());
    }
}

#[test]
fn response_reports_its_error() {
    let ok = ILinkErrorResponse { ret: 0, errcode: None, errmsg: None };
    assert!(ok.is_success());
    assert_eq!(ok.error_code(), ILinkErrorCode::Success);
    let bad = ILinkErrorResponse {
        ret: -1,
        errcode: Some(-100),
        errmsg: Some("slow down".to_string()),
    };
    assert!(!bad.is_success());
    assert_eq!(bad.error_code(), ILinkErrorCode::RateLimited);
    assert_eq!(
        bad.to_error().message,
        "iLink error (ret=-1, errcode=-100): Rate limited - too many requests — slow down"
    );
    let bare = ILinkErrorResponse { ret: -3, errcode: None, errmsg: None };
    assert_eq!(bare.to_error().message, "iLink error (ret=-3): Unknown error");
    let zero = ILinkErrorResponse { ret: 0, errcode: Some(0), errmsg: None };
    assert!(zero.is_success());
    let odd = ILinkErrorResponse { ret: 0, errcode: Some(-14), errmsg: None };
    assert!(!odd.is_success());
}

#[test]
fn retries_end() {
    let policy = RetryPolicy::default();
    assert!(policy.should_retry(0, &ILinkErrorCode::RateLimited));
    assert!(!policy.should_retry(0, &ILinkErrorCode::InvalidToken));
    assert!(!policy.should_retry(policy.max_retries, &ILinkErrorCode::RateLimited));
}
