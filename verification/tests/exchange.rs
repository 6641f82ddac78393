use chrome_for_testing::api::exchange::{endpoint, successful_body, Exchange, API_BASE_URL};
use chrome_for_testing::api::{known_good_versions, last_known_good_versions};
use chrome_for_testing::error::{Error, NetworkError};

#[test]
fn request_urls_under_the_published_origin() {
    assert_eq!(API_BASE_URL, "https://googlechromelabs.github.io");
    assert_eq!(
        known_good_versions::request_url(API_BASE_URL).unwrap(),
        "https://googlechromelabs.github.io/chrome-for-testing/known-good-versions-with-downloads.json"
    );
    assert_eq!(
        last_known_good_versions::request_url(API_BASE_URL).unwrap(),
        "https://googlechromelabs.github.io/chrome-for-testing/last-known-good-versions-with-downloads.json"
    );
}

#[test]
fn request_urls_under_another_origin() {
    assert_eq!(
        known_good_versions::request_url("http://127.0.0.1:1234").unwrap(),
        "http://127.0.0.1:1234/chrome-for-testing/known-good-versions-with-downloads.json"
    );
    assert_eq!(
        last_known_good_versions::request_url("http://localhost:8080/some/where?x=1").unwrap(),
        "http://localhost:8080/chrome-for-testing/last-known-good-versions-with-downloads.json"
    );
}

#[test]
fn endpoint_resolves_the_path_against_the_base() {
    assert_eq!(endpoint("http://example.com/a/b", "/c.json").unwrap(), "http://example.com/c.json");
    assert_eq!(endpoint("http://example.com/a/b", "c.json").unwrap(), "http://example.com/a/c.json");
    assert_eq!(endpoint("HTTP://EXAMPLE.com", "/x").unwrap(), "http://example.com/x");
}

#[test]
fn a_base_that_is_no_base_gives_a_url_error() {
    for base in ["", "not a url", "/relative/only", "mailto:someone@example.com", "http://"] {
        assert!(matches!(known_good_versions::request_url(base), Err(Error::UrlParsing(_))), "{:?}", base);
        assert!(
            matches!(last_known_good_versions::request_url(base), Err(Error::UrlParsing(_))),
            "{:?}",
            base
        );
    }
    assert!(matches!(
        endpoint("mailto:someone@example.com", "/x"),
        Err(Error::UrlParsing(url::ParseError::RelativeUrlWithCannotBeABaseBase))
    ));
    assert!(matches!(
        endpoint("nonsense", "/x"),
        Err(Error::UrlParsing(url::ParseError::RelativeUrlWithoutBase))
    ));
}

#[test]
fn successful_body_hands_the_body_on() {
    let exchange = Exchange::Response { status: 200, body: vec![1, 2, 3] };
    assert_eq!(successful_body(exchange), Ok(vec![1, 2, 3]));
    let exchange = Exchange::Response { status: 299, body: vec![] };
    assert_eq!(successful_body(exchange), Ok(vec![]));
}

#[test]
fn successful_body_refuses_other_statuses() {
    for status in [0u16, 100, 199, 300, 301, 404, 500, u16::MAX] {
        let exchange = Exchange::Response { status, body: vec![b'{', b'}'] };
        assert_eq!(successful_body(exchange), Err(NetworkError::Status(status)));
    }
}

#[test]
fn successful_body_reports_a_failed_exchange() {
    let exchange = Exchange::Failed(String::from("connection refused"));
    assert_eq!(
        successful_body(exchange),
        Err(NetworkError::Transport(String::from("connection refused")))
    );
}
