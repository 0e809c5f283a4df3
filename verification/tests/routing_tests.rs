use netprobe::handshake::compute_accept_token;
use netprobe::routing::{classify, Dispatch, HttpMethod};

#[test]
fn accept_token_matches_the_standard_derivation() {
    // The worked example from the protocol's specification: this fails if the
    // digest or the encoding were anything but SHA-1 and standard base64.
    let token = compute_accept_token(b"dGhlIHNhbXBsZSBub25jZQ==");
    assert_eq!(token, "s3pPLMBiTxaQ9kYGzzhZRbK+xOo=");
}

#[test]
fn preflight_wins_over_everything() {
    assert_eq!(
        classify(HttpMethod::Options, b"/measure", None, false),
        Dispatch::Preflight
    );
    assert_eq!(
        classify(HttpMethod::Options, b"/nowhere", Some(b"websocket"), true),
        Dispatch::Preflight
    );
}

#[test]
fn upgrade_needs_path_header_and_key() {
    assert_eq!(
        classify(HttpMethod::Get, b"/ws", Some(b"websocket"), true),
        Dispatch::UpgradeAccepted
    );
    assert_eq!(
        classify(HttpMethod::Get, b"/ws", Some(b"websocket"), false),
        Dispatch::UpgradeMissingKey
    );
    assert_eq!(
        classify(HttpMethod::Get, b"/ws", Some(b"other"), true),
        Dispatch::NotFound
    );
    assert_eq!(classify(HttpMethod::Get, b"/ws", None, true), Dispatch::NotFound);
}

#[test]
fn the_four_probe_routes() {
    assert_eq!(
        classify(HttpMethod::Post, b"/measure", None, false),
        Dispatch::SubmitSample
    );
    assert_eq!(
        classify(HttpMethod::Get, b"/measures", None, false),
        Dispatch::ReadSamples
    );
    assert_eq!(
        classify(HttpMethod::Get, b"/download", None, false),
        Dispatch::Download
    );
    assert_eq!(classify(HttpMethod::Post, b"/upload", None, false), Dispatch::Upload);
}

#[test]
fn wrong_method_or_path_is_not_found() {
    assert_eq!(classify(HttpMethod::Get, b"/measure", None, false), Dispatch::NotFound);
    assert_eq!(classify(HttpMethod::Post, b"/download", None, false), Dispatch::NotFound);
    assert_eq!(classify(HttpMethod::Get, b"/", None, false), Dispatch::NotFound);
    assert_eq!(
        classify(HttpMethod::OtherMethod, b"/upload", None, false),
        Dispatch::NotFound
    );
}
