use lcr::error::{Error, HeadlessError};

#[test]
fn headless_error_shows_its_text() {
    assert_eq!(HeadlessError::String("no browser".to_string()).message(), "no browser");
    assert_eq!(HeadlessError::Wrapped("timed out".to_string()).message(), "timed out");
    assert_eq!(HeadlessError::Wrapped(String::new()).message(), "");
}

#[test]
fn error_shows_its_kind_and_cause() {
    assert_eq!(
        Error::Http("https://example.test/x: status code 403".to_string()).message(),
        "Error making HTTP request: https://example.test/x: status code 403"
    );
    assert_eq!(
        Error::Headless(HeadlessError::Wrapped("element not found".to_string())).message(),
        "Error in headless browser: element not found"
    );
    assert_eq!(
        Error::Headless(HeadlessError::String("bad options".to_string())).message(),
        "Error in headless browser: bad options"
    );
    assert_eq!(
        Error::Io("expected value at line 1 column 1".to_string()).message(),
        "Error while doing IO: expected value at line 1 column 1"
    );
}
