//! The upgrade-handshake token derivation.
//!
//! To move a connection into a latency session the server answers the
//! client's key header with an accept token: the standard derivation takes
//! the key bytes, appends the protocol's fixed magic GUID, hashes with SHA-1
//! and encodes the digest in base64. The hash and the encoding come from
//! outside crates; their results are named here and the derivation around
//! them is verified.
use vstd::prelude::*;

verus! {

/// What SHA-1 yields on the given bytes. The digest depends on the input
/// bytes alone.
pub uninterp spec fn sha1_of(data: Seq<u8>) -> Seq<u8>;

/// What standard, padded base64 yields on the given bytes. The encoding
/// depends on the input bytes alone.
pub uninterp spec fn base64_of(data: Seq<u8>) -> Seq<char>;

/// Relies on sha1::Sha1 through digest::Digest::digest: computes the SHA-1
/// digest of the input, 20 bytes, a function of the input bytes alone.
#[verifier::external_body]
fn sha1_digest(data: &[u8]) -> (r: Vec<u8>)
    ensures
        r@ == sha1_of(data@),
        r@.len() == 20,
{
    <sha1::Sha1 as sha1::Digest>::digest(data).to_vec()
}

/// Relies on base64::engine::general_purpose::STANDARD through
/// base64::Engine::encode: the standard-alphabet, padded encoding of the
/// input bytes, a function of them alone. The length bound keeps out the
/// absurd input sizes on which encode's buffer-size computation panics.
#[verifier::external_body]
fn base64_encode(data: &[u8]) -> (r: String)
    requires
        data@.len() <= 0x1000_0000,
    ensures
        r@ == base64_of(data@),
{
    base64::Engine::encode(&base64::engine::general_purpose::STANDARD, data)
}

/// The protocol's fixed magic GUID, as bytes.
pub open spec fn magic_guid() -> Seq<u8> {
    seq![
        '2' as u8, '5' as u8, '8' as u8, 'E' as u8, 'A' as u8, 'F' as u8, 'A' as u8, '5' as u8,
        '-' as u8, 'E' as u8, '9' as u8, '1' as u8, '4' as u8, '-' as u8, '4' as u8, '7' as u8,
        'D' as u8, 'A' as u8, '-' as u8, '9' as u8, '5' as u8, 'C' as u8, 'A' as u8, '-' as u8,
        'C' as u8, '5' as u8, 'A' as u8, 'B' as u8, '0' as u8, 'D' as u8, 'C' as u8, '8' as u8,
        '5' as u8, 'B' as u8, '1' as u8, '1' as u8,
    ]
}

fn magic_guid_bytes() -> (v: Vec<u8>)
    ensures
        v@ == magic_guid(),
{
    let mut v: Vec<u8> = Vec::new();
    v.push('2' as u8);
    v.push('5' as u8);
    v.push('8' as u8);
    v.push('E' as u8);
    v.push('A' as u8);
    v.push('F' as u8);
    v.push('A' as u8);
    v.push('5' as u8);
    v.push('-' as u8);
    v.push('E' as u8);
    v.push('9' as u8);
    v.push('1' as u8);
    v.push('4' as u8);
    v.push('-' as u8);
    v.push('4' as u8);
    v.push('7' as u8);
    v.push('D' as u8);
    v.push('A' as u8);
    v.push('-' as u8);
    v.push('9' as u8);
    v.push('5' as u8);
    v.push('C' as u8);
    v.push('A' as u8);
    v.push('-' as u8);
    v.push('C' as u8);
    v.push('5' as u8);
    v.push('A' as u8);
    v.push('B' as u8);
    v.push('0' as u8);
    v.push('D' as u8);
    v.push('C' as u8);
    v.push('8' as u8);
    v.push('5' as u8);
    v.push('B' as u8);
    v.push('1' as u8);
    v.push('1' as u8);
    assert(v@ =~= magic_guid());
    v
}

/// The accept token owed for a client key: base64 of the SHA-1 digest of the
/// key bytes followed by the magic GUID.
pub open spec fn accept_token_of(key: Seq<u8>) -> Seq<char> {
    base64_of(sha1_of(key + magic_guid()))
}

/// Computes the handshake accept token for the client's key bytes.
pub fn compute_accept_token(key: &[u8]) -> (r: String)
    ensures
        r@ == accept_token_of(key@),
{
    let mut salted: Vec<u8> = Vec::new();
    let mut i: usize = 0;
    while i < key.len()
        invariant
            i <= key.len(),
            salted@ == key@.subrange(0, i as int),
        decreases key.len() - i,
    {
        salted.push(key[i]);
        assert(salted@ =~= key@.subrange(0, i + 1 as int));
        i += 1;
    }
    assert(salted@ =~= key@);
    let magic = magic_guid_bytes();
    let mut j: usize = 0;
    while j < magic.len()
        invariant
            j <= magic.len(),
            magic@ == magic_guid(),
            salted@ == key@ + magic@.subrange(0, j as int),
        decreases magic.len() - j,
    {
        salted.push(magic[j]);
        assert(salted@ =~= key@ + magic@.subrange(0, j + 1 as int));
        j += 1;
    }
    assert(salted@ =~= key@ + magic_guid());
    let digest = sha1_digest(salted.as_slice());
    base64_encode(digest.as_slice())
}

} // verus!
