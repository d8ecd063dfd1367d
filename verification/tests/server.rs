use cgroup_metrics::metrics::{Resource, ScrapeError};
use cgroup_metrics::server::{
    authorized, basic_auth_header, log_filter_level, min_metadata_refresh, signal_name, LogLevel,
    Reply,
};

#[test]
fn verbosity_gives_the_log_level() {
    assert_eq!(log_filter_level(0), Some(LogLevel::Info));
    assert_eq!(log_filter_level(1), Some(LogLevel::Debug));
    assert_eq!(log_filter_level(2), Some(LogLevel::Trace));
    assert_eq!(log_filter_level(3), None);
    assert_eq!(log_filter_level(255), None);
}

#[test]
fn zero_milliseconds_configure_no_interval() {
    assert_eq!(min_metadata_refresh(0), None);
    assert_eq!(min_metadata_refresh(1), Some(1));
    assert_eq!(min_metadata_refresh(2000), Some(2000));
    assert_eq!(min_metadata_refresh(u32::MAX), Some(4294967295));
}

#[test]
fn basic_auth_header_encodes_the_credentials() {
    assert_eq!(basic_auth_header("user:pass"), Some("Basic dXNlcjpwYXNz".to_string()));
    assert_eq!(basic_auth_header(""), Some("Basic ".to_string()));
    assert_eq!(basic_auth_header("a"), Some("Basic YQ==".to_string()));
    assert_eq!(basic_auth_header("ab"), Some("Basic YWI=".to_string()));
    assert_eq!(
        basic_auth_header("Aladdin:open sesame"),
        Some("Basic QWxhZGRpbjpvcGVuIHNlc2FtZQ==".to_string())
    );
    assert_eq!(basic_auth_header("\u{fc}:\u{e9}"), Some("Basic w7w6w6k=".to_string()));
}

#[test]
fn without_credentials_every_request_is_let_in() {
    assert!(authorized(None, None));
    assert!(authorized(None, Some(b"Basic anything")));
}

#[test]
fn with_credentials_only_the_expected_header_is_let_in() {
    let expected = basic_auth_header("user:pass").unwrap();
    assert!(authorized(Some(&expected), Some(b"Basic dXNlcjpwYXNz")));
    assert!(!authorized(Some(&expected), None));
    assert!(!authorized(Some(&expected), Some(b"")));
    assert!(!authorized(Some(&expected), Some(b"Basic dXNlcjpwYXNa")));
    assert!(!authorized(Some(&expected), Some(b"Basic dXNlcjpwYXNzIA")));
    assert!(!authorized(Some(&expected), Some(b"Basic dXNlcjpwYXN")));
    assert!(!authorized(Some(&expected), Some(b"basic dXNlcjpwYXNz")));
    assert!(!authorized(Some(&expected), Some(&[0xff, 0xfe])));
}

#[test]
fn replies() {
    let ok = Reply::of_scrape(Ok("metrics\n".to_string()));
    assert_eq!(ok.status(), 200);
    assert_eq!(ok.challenge(), None);
    assert_eq!(ok.body(), "metrics\n");
    let failed = Reply::of_scrape(Err(ScrapeError::Unreadable(Resource::Cpu)));
    assert_eq!(failed.status(), 500);
    assert_eq!(failed.challenge(), None);
    assert_eq!(failed.body(), "Error occured. Please see logs.");
    let denied = Reply::Unauthorized;
    assert_eq!(denied.status(), 401);
    assert_eq!(denied.challenge(), Some("Basic"));
    assert_eq!(denied.body(), "");
}

#[test]
fn signal_names() {
    assert_eq!(signal_name(15), "SIGTERM");
    assert_eq!(signal_name(3), "SIGQUIT");
    assert_eq!(signal_name(2), "SIGINT");
    assert_eq!(signal_name(1), "?");
    assert_eq!(signal_name(-15), "?");
}
