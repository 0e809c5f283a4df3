//! Classification of inbound requests.
//!
//! The embedding dispatch layer hands over the request's method, path and
//! the two upgrade-related facts (the upgrade header's value, and whether
//! the client sent its key header); [`classify`] decides which component the
//! request belongs to. Preflight requests are acknowledged first, whatever
//! their path; a well-formed upgrade request on the session path enters the
//! handshake, one without the key header is a client error; everything else
//! follows the route table, and what matches nothing is not found.
use vstd::prelude::*;

use crate::bytes::bytes_eq;

verus! {

/// The request methods the core distinguishes. Anything else only ever
/// reaches the not-found answer.
#[derive(Clone, Copy, PartialEq, Eq, Structural, Debug)]
pub enum HttpMethod {
    Get,
    Post,
    Options,
    OtherMethod,
}

/// Where a classified request goes.
#[derive(Clone, Copy, PartialEq, Eq, Structural, Debug)]
pub enum Dispatch {
    /// Cross-origin preflight: acknowledge with an empty success answer.
    Preflight,
    /// Session upgrade with the key header present: answer with the accept
    /// token and hand the connection to a new latency session.
    UpgradeAccepted,
    /// Session upgrade without the key header: a client error, the
    /// connection is not upgraded.
    UpgradeMissingKey,
    /// A latency sample submission for the store.
    SubmitSample,
    /// A read of the full sample collection.
    ReadSamples,
    /// The paced download probe.
    Download,
    /// The upload sink.
    Upload,
    /// No route matches.
    NotFound,
}

/// The session path.
pub open spec fn path_ws() -> Seq<u8> {
    seq!['/' as u8, 'w' as u8, 's' as u8]
}

/// The sample-submission path.
pub open spec fn path_measure() -> Seq<u8> {
    seq!['/' as u8, 'm' as u8, 'e' as u8, 'a' as u8, 's' as u8, 'u' as u8, 'r' as u8, 'e' as u8]
}

/// The sample-read path.
pub open spec fn path_measures() -> Seq<u8> {
    seq![
        '/' as u8, 'm' as u8, 'e' as u8, 'a' as u8, 's' as u8, 'u' as u8, 'r' as u8, 'e' as u8,
        's' as u8,
    ]
}

/// The download-probe path.
pub open spec fn path_download() -> Seq<u8> {
    seq![
        '/' as u8, 'd' as u8, 'o' as u8, 'w' as u8, 'n' as u8, 'l' as u8, 'o' as u8, 'a' as u8,
        'd' as u8,
    ]
}

/// The upload-sink path.
pub open spec fn path_upload() -> Seq<u8> {
    seq!['/' as u8, 'u' as u8, 'p' as u8, 'l' as u8, 'o' as u8, 'a' as u8, 'd' as u8]
}

/// The upgrade header value that asks for the session protocol.
pub open spec fn websocket_word() -> Seq<u8> {
    seq![
        'w' as u8, 'e' as u8, 'b' as u8, 's' as u8, 'o' as u8, 'c' as u8, 'k' as u8, 'e' as u8,
        't' as u8,
    ]
}

/// True when the upgrade header is present and asks for the session
/// protocol.
pub open spec fn wants_session_upgrade(upgrade_header: Option<Seq<u8>>) -> bool {
    upgrade_header matches Some(h) && h == websocket_word()
}

/// The route owed to a request, by the table: preflight first, then the
/// session upgrade, then the four probe routes, then not found.
pub open spec fn spec_classify(
    method: HttpMethod,
    path: Seq<u8>,
    upgrade_header: Option<Seq<u8>>,
    has_ws_key: bool,
) -> Dispatch {
    if method is Options {
        Dispatch::Preflight
    } else if method is Get && path == path_ws() && wants_session_upgrade(upgrade_header) {
        if has_ws_key {
            Dispatch::UpgradeAccepted
        } else {
            Dispatch::UpgradeMissingKey
        }
    } else if method is Post && path == path_measure() {
        Dispatch::SubmitSample
    } else if method is Get && path == path_measures() {
        Dispatch::ReadSamples
    } else if method is Get && path == path_download() {
        Dispatch::Download
    } else if method is Post && path == path_upload() {
        Dispatch::Upload
    } else {
        Dispatch::NotFound
    }
}

fn path_ws_bytes() -> (v: Vec<u8>)
    ensures
        v@ == path_ws(),
{
    let mut v: Vec<u8> = Vec::new();
    v.push('/' as u8);
    v.push('w' as u8);
    v.push('s' as u8);
    assert(v@ =~= path_ws());
    v
}

fn path_measure_bytes() -> (v: Vec<u8>)
    ensures
        v@ == path_measure(),
{
    let mut v: Vec<u8> = Vec::new();
    v.push('/' as u8);
    v.push('m' as u8);
    v.push('e' as u8);
    v.push('a' as u8);
    v.push('s' as u8);
    v.push('u' as u8);
    v.push('r' as u8);
    v.push('e' as u8);
    assert(v@ =~= path_measure());
    v
}

fn path_measures_bytes() -> (v: Vec<u8>)
    ensures
        v@ == path_measures(),
{
    let mut v = path_measure_bytes();
    v.push('s' as u8);
    assert(v@ =~= path_measures());
    v
}

fn path_download_bytes() -> (v: Vec<u8>)
    ensures
        v@ == path_download(),
{
    let mut v: Vec<u8> = Vec::new();
    v.push('/' as u8);
    v.push('d' as u8);
    v.push('o' as u8);
    v.push('w' as u8);
    v.push('n' as u8);
    v.push('l' as u8);
    v.push('o' as u8);
    v.push('a' as u8);
    v.push('d' as u8);
    assert(v@ =~= path_download());
    v
}

fn path_upload_bytes() -> (v: Vec<u8>)
    ensures
        v@ == path_upload(),
{
    let mut v: Vec<u8> = Vec::new();
    v.push('/' as u8);
    v.push('u' as u8);
    v.push('p' as u8);
    v.push('l' as u8);
    v.push('o' as u8);
    v.push('a' as u8);
    v.push('d' as u8);
    assert(v@ =~= path_upload());
    v
}

fn websocket_word_bytes() -> (v: Vec<u8>)
    ensures
        v@ == websocket_word(),
{
    let mut v: Vec<u8> = Vec::new();
    v.push('w' as u8);
    v.push('e' as u8);
    v.push('b' as u8);
    v.push('s' as u8);
    v.push('o' as u8);
    v.push('c' as u8);
    v.push('k' as u8);
    v.push('e' as u8);
    v.push('t' as u8);
    assert(v@ =~= websocket_word());
    v
}

/// Classifies one inbound request. `upgrade_header` is the upgrade header's
/// value if the request carries one; `has_ws_key` says whether the client's
/// key header is present.
pub fn classify(
    method: HttpMethod,
    path: &[u8],
    upgrade_header: Option<&[u8]>,
    has_ws_key: bool,
) -> (r: Dispatch)
    ensures
        r == spec_classify(
            method,
            path@,
            match upgrade_header {
                Some(h) => Some(h@),
                None => None,
            },
            has_ws_key,
        ),
{
    if matches!(method, HttpMethod::Options) {
        return Dispatch::Preflight;
    }
    let is_get = matches!(method, HttpMethod::Get);
    let is_post = matches!(method, HttpMethod::Post);
    let wants_upgrade = match upgrade_header {
        Some(h) => bytes_eq(h, websocket_word_bytes().as_slice()),
        None => false,
    };
    if is_get && bytes_eq(path, path_ws_bytes().as_slice()) && wants_upgrade {
        if has_ws_key {
            Dispatch::UpgradeAccepted
        } else {
            Dispatch::UpgradeMissingKey
        }
    } else if is_post && bytes_eq(path, path_measure_bytes().as_slice()) {
        Dispatch::SubmitSample
    } else if is_get && bytes_eq(path, path_measures_bytes().as_slice()) {
        Dispatch::ReadSamples
    } else if is_get && bytes_eq(path, path_download_bytes().as_slice()) {
        Dispatch::Download
    } else if is_post && bytes_eq(path, path_upload_bytes().as_slice()) {
        Dispatch::Upload
    } else {
        Dispatch::NotFound
    }
}

} // verus!
