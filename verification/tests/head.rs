use http_framing::header::fields::{Connection, Expect};
use http_framing::header::Headers;
use http_framing::http::{expecting_continue, should_keep_alive, MessageHead};
use http_framing::version::HttpVersion::{Http10, Http11};

#[test]
fn test_should_keep_alive() {
    let mut http10 = MessageHead {
        version: Http10,
        subject: (),
        headers: Headers::new(),
    };
    let mut http11 = MessageHead {
        version: Http11,
        subject: (),
        headers: Headers::new(),
    };

    assert!(!should_keep_alive(&http10));
    assert!(should_keep_alive(&http11));

    http10.headers.set(Connection::close());
    http11.headers.set(Connection::close());
    assert!(!should_keep_alive(&http10));
    assert!(!should_keep_alive(&http11));

    http10.headers.set(Connection::keep_alive());
    http11.headers.set(Connection::keep_alive());
    assert!(should_keep_alive(&http10));
    assert!(should_keep_alive(&http11));
}

#[test]
fn test_expecting_continue() {
    let mut http10 = MessageHead {
        version: Http10,
        subject: (),
        headers: Headers::new(),
    };
    let mut http11 = MessageHead {
        version: Http11,
        subject: (),
        headers: Headers::new(),
    };

    assert!(!expecting_continue(&http10));
    assert!(!expecting_continue(&http11));

    http10.headers.set(Expect::Continue);
    http11.headers.set(Expect::Continue);
    assert!(!expecting_continue(&http10));
    assert!(expecting_continue(&http11));
}
