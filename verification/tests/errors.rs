use lyrix::error::fetcher::{AuthError, HttpError, ProxyError};
use lyrix::error::general::GeneralError;
use lyrix::error::parser::{DecryptError, ParseError, TotpGenError};
use lyrix::error::searcher::SearcherError;
use lyrix::error::LyrixError;

#[test]
fn parser_messages() {
    assert_eq!(ParseError::OffsetOverflow { t1: 12, t2: 3 }.message(), "offset overflow: t1=12, t2=3");
    assert_eq!(ParseError::EmptyContent.message(), "empty lyrics content");
    assert_eq!(
        DecryptError::Base64Decode { detail: "bad".to_string(), len: 1024 }.message(),
        "base64 decode failed: bad (len=1024)"
    );
    assert_eq!(TotpGenError::InvalidIndex { index: 7 }.message(), "invalid TOTP index: 7 (valid: 0/1/2)");
    assert_eq!(
        LyrixError::from(ParseError::TimestampParse { field: "s".to_string(), raw: "x".to_string() }).message(),
        "timestamp parse error: field=s, raw=x"
    );
}

#[test]
fn fetcher_messages() {
    assert_eq!(HttpError::Redirect { status: 302, url: "u".to_string() }.message(), "unexpected redirect (302): u");
    assert_eq!(HttpError::OtherStatus { status: 0, url: "u".to_string() }.message(), "HTTP 0: u");
    assert_eq!(
        AuthError::MissingCredential { provider: "Spotify".to_string(), field: "spotify_cookie".to_string() }
            .message(),
        "Spotify: missing spotify_cookie, call set_session first"
    );
    assert_eq!(
        ProxyError::InvalidUrl { url: "http://h:1".to_string(), reason: "r".to_string() }.message(),
        "invalid proxy URL: http://h:1 (r)"
    );
}

#[test]
fn searcher_and_general_messages() {
    assert_eq!(
        SearcherError::LowScore { label: "QQ".to_string(), score: -3, threshold: 5, query: "q".to_string() }
            .message(),
        "QQ: score too low (best=-3/5, query=q)"
    );
    assert_eq!(
        LyrixError::from(GeneralError::MissingField { field: "trial info".to_string() }).message(),
        "missing required field: trial info"
    );
    let io = GeneralError::Io(std::io::Error::new(std::io::ErrorKind::Other, "disk"));
    assert_eq!(io.message(), "IO error: disk");
}
