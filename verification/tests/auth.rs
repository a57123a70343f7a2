use portfolio_pulse::auth::{check_credentials, is_admin_user, is_authorized};
use portfolio_pulse::error::AppError;
use portfolio_pulse::services::activity::ActivityService;
use portfolio_pulse::services::commit::CommitService;

#[test]
fn without_settings_every_request_passes() {
    assert!(is_authorized("", "", None));
    assert!(is_authorized("admin", "", None));
    assert!(is_authorized("", "token", Some("nonsense")));
}

#[test]
fn a_bearer_token_must_be_the_token() {
    assert!(is_authorized("admin", "s3cret", Some("Bearer s3cret")));
    assert!(!is_authorized("admin", "s3cret", Some("Bearer s3cre")));
    assert!(!is_authorized("admin", "s3cret", Some("Bearer s3cret ")));
    assert!(!is_authorized("admin", "s3cret", Some("bearer s3cret")));
    assert!(!is_authorized("admin", "s3cret", Some("Bearer")));
    assert!(!is_authorized("admin", "s3cret", Some("s3cret")));
    assert!(!is_authorized("admin", "s3cret", None));
    assert!(!is_authorized("admin", "s3cret", Some("")));
}

#[test]
fn basic_credentials_must_be_name_and_token() {
    // base64 of admin:s3cret
    assert!(is_authorized("admin", "s3cret", Some("Basic YWRtaW46czNjcmV0")));
    // base64 of admin:wrong
    assert!(!is_authorized("admin", "s3cret", Some("Basic YWRtaW46d3Jvbmc=")));
    // base64 of other:s3cret
    assert!(!is_authorized("admin", "s3cret", Some("Basic b3RoZXI6czNjcmV0")));
    // base64 of admin:s3cret:more
    assert!(!is_authorized("admin", "s3cret", Some("Basic YWRtaW46czNjcmV0Om1vcmU=")));
    // no base64 at all
    assert!(!is_authorized("admin", "s3cret", Some("Basic !!!")));
    // base64 of the bytes ff fe, which are no text
    assert!(!is_authorized("admin", "s3cret", Some("Basic //4=")));
    // the credentials as they are, not encoded
    assert!(!is_authorized("admin", "s3cret", Some("Basic admin:s3cret")));
    // a token that holds a colon can never match
    // base64 of admin:a:b
    assert!(!is_authorized("admin", "a:b", Some("Basic YWRtaW46YTpi")));
}

#[test]
fn credentials_are_name_colon_token() {
    assert!(check_credentials("admin:token", "admin", "token"));
    assert!(!check_credentials("admin:token", "admin", "other"));
    assert!(!check_credentials("admin", "admin", ""));
    assert!(check_credentials("admin:", "admin", ""));
    assert!(!check_credentials("a:b:c", "a", "b:c"));
}

#[test]
fn the_administrator_is_who_the_settings_name() {
    assert!(is_admin_user("root", "root"));
    assert!(!is_admin_user("root", "admin"));
    assert!(!is_admin_user("", ""));
    assert!(!is_admin_user("root", ""));
}

#[test]
fn each_error_has_its_status_code_and_text() {
    let cases = [
        (AppError::not_found("a"), 404, "NOT_FOUND", "Not Found: a"),
        (AppError::bad_request("b"), 400, "BAD_REQUEST", "Bad Request: b"),
        (AppError::internal_error("c"), 500, "INTERNAL_ERROR", "Internal Error: c"),
        (AppError::validation_error("d"), 400, "VALIDATION_ERROR", "Validation Error: d"),
        (AppError::unauthorized("e"), 401, "UNAUTHORIZED", "Unauthorized: e"),
        (AppError::forbidden("f"), 403, "FORBIDDEN", "Forbidden: f"),
        (AppError::conflict("g"), 409, "CONFLICT", "Conflict: g"),
        (AppError::rate_limited("h"), 429, "RATE_LIMITED", "Rate Limited: h"),
    ];
    for (error, status, code, text) in cases {
        assert_eq!(error.status_code(), status);
        assert_eq!(error.code(), code);
        assert_eq!(error.to_text(), text);
        let body = error.to_response();
        assert_eq!(body.code, code);
        assert_eq!(body.message, error.message());
        assert_eq!(body.details, None);
        assert_eq!(body.request_id, None);
    }
    assert!(matches!(AppError::not_found("x"), AppError::NotFound(m) if m == "x"));
    assert!(matches!(AppError::conflict("博客"), AppError::Conflict(m) if m == "博客"));
}

#[test]
fn services_without_records_report_nothing() {
    assert!(ActivityService::new().get_recent(7).is_empty());
    assert!(CommitService::new().get_recent(10).is_empty());
}
