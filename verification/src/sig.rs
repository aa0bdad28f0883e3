//! Request authentication: an Ed25519 signature over the timestamp followed by
//! the raw request body, given as a hex digit string.
use vstd::prelude::*;

use crate::hexfmt::{hex_bytes, is_hex_seq};

verus! {

/// Whether Ed25519 verification of `sig` over `msg` under the 32-byte key `pk`
/// succeeds. Verification is a pure function of these three byte sequences.
pub uninterp spec fn ed25519_valid(pk: Seq<u8>, msg: Seq<u8>, sig: Seq<u8>) -> bool;

/// Relies on ed25519_dalek::VerifyingKey::verify (through the Verifier trait):
/// it returns Ok exactly when the signature is cryptographically valid for the
/// message under the key, a deterministic check; and on
/// ed25519_dalek::VerifyingKey::from_bytes, which rejects byte strings that are
/// no valid public key, in which case no signature verifies.
#[verifier::external_body]
fn ed25519_verify_bytes(pk: &[u8], msg: &[u8], sig: &[u8]) -> (r: bool)
    requires
        pk@.len() == 32,
        sig@.len() == 64,
    ensures
        r == ed25519_valid(pk@, msg@, sig@),
{
    let key_bytes: [u8; 32] = pk.try_into().unwrap();
    let sig_bytes: [u8; 64] = sig.try_into().unwrap();
    let key = match ed25519_dalek::VerifyingKey::from_bytes(&key_bytes) {
        Ok(k) => k,
        Err(_) => {
            return false;
        },
    };
    let s = ed25519_dalek::Signature::from_bytes(&sig_bytes);
    ed25519_dalek::Verifier::verify(&key, msg, &s).is_ok()
}

/// The signed message: the UTF-8 bytes of the timestamp, then the raw body.
pub open spec fn spec_message(timestamp: Seq<char>, body: Seq<u8>) -> Seq<u8> {
    vstd::utf8::encode_utf8(timestamp) + body
}

/// What `verify` decides: the signature text must be 128 hex digits, and the
/// 64 bytes they denote must be a valid Ed25519 signature over the
/// timestamp-prefixed body under the key.
pub open spec fn spec_verify(
    pk: Seq<u8>,
    timestamp: Seq<char>,
    body: Seq<u8>,
    signature_hex: Seq<char>,
) -> bool {
    &&& is_hex_seq(signature_hex)
    &&& hex_bytes(signature_hex).len() == 64
    &&& ed25519_valid(pk, spec_message(timestamp, body), hex_bytes(signature_hex))
}

/// Authenticate one request. Returns false (never fails) when the signature
/// text is not hex, has the wrong length, or the cryptographic check fails.
pub fn verify(pk: &Vec<u8>, timestamp: &str, body: &[u8], signature_hex: &str) -> (r: bool)
    requires
        pk@.len() == 32,
    ensures
        r == spec_verify(pk@, timestamp@, body@, signature_hex@),
{
    let sig = match crate::hexfmt::decode_hex(signature_hex) {
        Some(v) => v,
        None => {
            return false;
        },
    };
    if sig.len() != 64 {
        return false;
    }
    let mut msg: Vec<u8> = Vec::new();
    let ts = timestamp.as_bytes();
    let mut i: usize = 0;
    while i < ts.len()
        invariant
            0 <= i <= ts@.len(),
            ts@ == vstd::utf8::encode_utf8(timestamp@),
            msg@ == ts@.subrange(0, i as int),
        decreases ts@.len() - i,
    {
        msg.push(ts[i]);
        i = i + 1;
        proof {
            assert(msg@ =~= ts@.subrange(0, i as int));
        }
    }
    proof {
        assert(msg@ =~= ts@);
    }
    let mut j: usize = 0;
    let ghost ts_len = msg@.len();
    while j < body.len()
        invariant
            0 <= j <= body@.len(),
            msg@ == vstd::utf8::encode_utf8(timestamp@) + body@.subrange(0, j as int),
        decreases body@.len() - j,
    {
        msg.push(body[j]);
        j = j + 1;
        proof {
            assert(msg@ =~= vstd::utf8::encode_utf8(timestamp@) + body@.subrange(0, j as int));
        }
    }
    proof {
        assert(msg@ =~= spec_message(timestamp@, body@));
    }
    ed25519_verify_bytes(pk.as_slice(), msg.as_slice(), sig.as_slice())
}

/// Read a 32-byte public key from its hex form; `None` exactly when the text
/// is not 64 hex digits.
pub fn parse_public_key(key_hex: &str) -> (r: Option<Vec<u8>>)
    ensures
        match r {
            Some(v) => is_hex_seq(key_hex@) && v@ == hex_bytes(key_hex@) && v@.len() == 32,
            None => !is_hex_seq(key_hex@) || hex_bytes(key_hex@).len() != 32,
        },
{
    match crate::hexfmt::decode_hex(key_hex) {
        Some(v) => {
            if v.len() == 32 {
                Some(v)
            } else {
                None
            }
        },
        None => None,
    }
}

} // verus!
