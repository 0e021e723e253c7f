//! Request admission: the size cap, the party-identity check, and the
//! signature check binding a request ID to a request body under the
//! submitting party's key.

use vstd::prelude::*;
use k256::ecdsa::signature::Verifier;
use base64::Engine;
use vstd::arithmetic::power::pow;
use vstd::arithmetic::div_mod::lemma_div_denominator;
use crate::request::{DealerRequest, DealerError, MAX_REQUEST_SIZE};
use crate::dealer::{PARTY0, PARTY1};

verus! {

/// What base64's standard-alphabet decoder yields on a string: a function of
/// the string alone (`None` when the string is not valid base64).
pub uninterp spec fn base64_decoding(s: Seq<char>) -> Option<Seq<u8>>;

/// Relies on base64's standard-alphabet decoder; the result depends on the
/// input string alone.
#[verifier::external_body]
fn base64_decode(s: &str) -> (r: Option<Vec<u8>>)
    ensures
        match r {
            Some(v) => base64_decoding(s@) == Some(v@),
            None => base64_decoding(s@) is None,
        },
{
    match base64::engine::general_purpose::STANDARD.decode(s.as_bytes()) {
        Ok(v) => Some(v),
        Err(_) => None,
    }
}

/// Whether `sig` is a valid ECDSA signature on `msg` under the SEC1-encoded
/// verifying key `key`: a function of the three byte strings alone.
pub uninterp spec fn ecdsa_verifies(key: Seq<u8>, msg: Seq<u8>, sig: Seq<u8>) -> bool;

/// Relies on k256's ECDSA verification over secp256k1, with the key parsed
/// from its SEC1 bytes and the signature from its fixed-width bytes; a key
/// or signature that does not parse verifies nothing.
#[verifier::external_body]
fn ecdsa_verify(key: &Vec<u8>, msg: &Vec<u8>, sig: &Vec<u8>) -> (r: bool)
    ensures
        r == ecdsa_verifies(key@, msg@, sig@),
{
    let vk = match k256::ecdsa::VerifyingKey::from_sec1_bytes(key) {
        Ok(k) => k,
        Err(_) => return false,
    };
    let s = match k256::ecdsa::Signature::from_slice(sig) {
        Ok(s) => s,
        Err(_) => return false,
    };
    vk.verify(msg, &s).is_ok()
}

/// Byte `i` of the little-endian representation of `x`.
pub open spec fn le_byte(x: u128, i: int) -> u8 {
    ((((x as int) / pow(256, i as nat)) % 256) as u8)
}

/// The 16 little-endian bytes of a request ID.
pub open spec fn rid_le_bytes(x: u128) -> Seq<u8> {
    Seq::new(16, |i: int| le_byte(x, i))
}

/// The payload a party signs: the request ID's 16 little-endian bytes
/// followed by the canonical bytes of the request body.
pub open spec fn signed_payload(rid: u128, body: Seq<u8>) -> Seq<u8> {
    rid_le_bytes(rid) + body
}

/// The key a party's submission is verified under: the first party's key for
/// `PARTY0`, the second party's otherwise.
pub open spec fn signing_key_of(req: DealerRequest, pid: u64) -> Seq<u8> {
    if pid == PARTY0 {
        req.first_party_key@
    } else {
        req.second_party_key@
    }
}

/// The submission's base64 signature decodes and verifies over the signed
/// payload under the submitting party's key.
pub open spec fn signature_accepted(
    rid: u128,
    pid: u64,
    sig_b64: Seq<char>,
    req: DealerRequest,
    body: Seq<u8>,
) -> bool {
    match base64_decoding(sig_b64) {
        Some(sig) => ecdsa_verifies(signing_key_of(req, pid), signed_payload(rid, body), sig),
        None => false,
    }
}

/// The 16 little-endian bytes of a request ID, as a vector.
pub fn request_id_bytes(rid: u128) -> (r: Vec<u8>)
    ensures
        r@ == rid_le_bytes(rid),
{
    let mut out: Vec<u8> = Vec::new();
    let mut x = rid;
    let mut i: usize = 0;
    proof {
        vstd::arithmetic::power::lemma_pow0(256);
    }
    while i < 16
        invariant
            0 <= i <= 16,
            out@.len() == i,
            x as int == (rid as int) / pow(256, i as nat),
            forall|j: int| 0 <= j < i ==> out@[j] == le_byte(rid, j),
        decreases 16 - i,
    {
        proof {
            vstd::arithmetic::power::lemma_pow_positive(256, i as nat);
            lemma_div_denominator(rid as int, pow(256, i as nat), 256);
            vstd::arithmetic::power::lemma_pow_adds(256, i as nat, 1);
            vstd::arithmetic::power::lemma_pow1(256);
        }
        let b = (x % 256) as u8;
        out.push(b);
        x = x / 256;
        i += 1;
    }
    proof {
        assert(out@ =~= rid_le_bytes(rid));
    }
    out
}

/// Validate an incoming submission: the size cap, then the party ID, then
/// the signature, in order; the first failing check decides the error.
pub fn validate_request(
    request_id: u128,
    party_id: u64,
    signature: &str,
    body: &DealerRequest,
    body_bytes: &Vec<u8>,
) -> (r: Result<(), DealerError>)
    ensures
        ({
            let oversize = body.total_spec() > MAX_REQUEST_SIZE as int;
            let bad_pid = !(party_id == PARTY0 || party_id == PARTY1);
            let sig_ok = signature_accepted(request_id, party_id, signature@, *body, body_bytes@);
            match r {
                Ok(()) => !oversize && !bad_pid && sig_ok,
                Err(e) => {
                    &&& (oversize || bad_pid || !sig_ok)
                    &&& (e is RequestTooLarge <==> oversize)
                    &&& (e is InvalidPartyId <==> (!oversize && bad_pid))
                    &&& (e is InvalidSignature <==> (!oversize && !bad_pid && !sig_ok))
                },
            }
        }),
{
    if body.total_values() > MAX_REQUEST_SIZE as u64 {
        return Err(DealerError::RequestTooLarge);
    }
    if !(party_id == PARTY0 || party_id == PARTY1) {
        return Err(DealerError::InvalidPartyId);
    }
    let decoded = match base64_decode(signature) {
        Some(d) => d,
        None => {
            return Err(DealerError::InvalidSignature);
        },
    };
    let mut payload = request_id_bytes(request_id);
    let n = body_bytes.len();
    let mut i: usize = 0;
    while i < n
        invariant
            n == body_bytes@.len(),
            0 <= i <= n,
            payload@ == rid_le_bytes(request_id) + body_bytes@.subrange(0, i as int),
        decreases n - i,
    {
        payload.push(body_bytes[i]);
        proof {
            assert(payload@ =~= rid_le_bytes(request_id) + body_bytes@.subrange(0, i + 1));
        }
        i += 1;
    }
    proof {
        assert(body_bytes@.subrange(0, n as int) =~= body_bytes@);
    }
    let key = if party_id == PARTY0 {
        &body.first_party_key
    } else {
        &body.second_party_key
    };
    if ecdsa_verify(key, &payload, &decoded) {
        Ok(())
    } else {
        Err(DealerError::InvalidSignature)
    }
}

} // verus!
