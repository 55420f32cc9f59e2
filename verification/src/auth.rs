//! Challenge/response authentication from an optional shared secret.
//!
//! With no secret configured, authentication is skipped as an explicit
//! opt-out. With a secret, the server sends a fresh random nonce and expects
//! back the keyed hash of that nonce under the secret; it recomputes the tag
//! itself and compares without an early exit, and a mismatch is answered
//! uniformly whatever the cause.

use vstd::prelude::*;
use hmac::Mac;
use crate::codec::{u128_bytes, push_u128, TAG_LEN};

verus! {

/// HMAC-SHA256 of `data` under `key`, named but never written out here: the
/// outside implementation is the only definition.
pub uninterp spec fn mac_of(key: Seq<u8>, data: Seq<u8>) -> Seq<u8>;

/// Relies on `hmac::Hmac<sha2::Sha256>` (`new_from_slice`, `update`,
/// `finalize`): the tag is a function of key and data alone, 32 bytes long,
/// and any key length is accepted.
#[verifier::external_body]
fn hmac_sha256(key: &Vec<u8>, data: &Vec<u8>) -> (r: Vec<u8>)
    ensures
        r@ == mac_of(key@, data@),
        r@.len() == TAG_LEN,
{
    let mut mac = <hmac::Hmac<sha2::Sha256> as Mac>::new_from_slice(key.as_slice())
        .expect("any key length is accepted");
    mac.update(data.as_slice());
    mac.finalize().into_bytes().to_vec()
}

/// The tag that answers `Challenge(nonce)` under `secret`: the keyed hash of
/// the nonce's big-endian bytes.
pub open spec fn tag_spec(secret: Seq<u8>, nonce: u128) -> Seq<u8> {
    mac_of(secret, u128_bytes(nonce))
}

/// Whether `tag` authenticates against `Challenge(nonce)` under `secret`.
pub open spec fn tag_matches(secret: Seq<u8>, nonce: u128, tag: Seq<u8>) -> bool {
    tag == tag_spec(secret, nonce)
}

proof fn lemma_or_xor_zero(d: u8, x: u8, y: u8)
    ensures ((d | (x ^ y)) == 0) == (d == 0 && x == y),
{
    assert(((d | (x ^ y)) == 0) == (d == 0 && x == y)) by (bit_vector);
}

/// Compares two byte strings, accumulating the difference over every
/// position instead of leaving at the first mismatch.
pub fn bytes_equal(a: &Vec<u8>, b: &Vec<u8>) -> (r: bool)
    ensures r == (a@ == b@),
{
    let n = a.len();
    if n != b.len() {
        proof {
            assert(a@ != b@);
        }
        return false;
    }
    let mut diff: u8 = 0;
    let mut i: usize = 0;
    proof {
        assert(a@.take(0) =~= b@.take(0));
    }
    while i < n
        invariant
            i <= n,
            n == a.len(),
            n == b.len(),
            (diff == 0) == (a@.take(i as int) == b@.take(i as int)),
        decreases n - i,
    {
        let ghost diff0 = diff;
        diff = diff | (a[i] ^ b[i]);
        proof {
            lemma_or_xor_zero(diff0, a@[i as int], b@[i as int]);
            let ta = a@.take(i as int + 1);
            let tb = b@.take(i as int + 1);
            if diff == 0 {
                assert(ta =~= tb);
            } else if ta == tb {
                assert(a@[i as int] == ta[i as int]);
                assert(b@[i as int] == tb[i as int]);
                assert(a@.take(i as int) =~= ta.take(i as int));
                assert(b@.take(i as int) =~= tb.take(i as int));
                assert(false);
            }
        }
        i = i + 1;
    }
    proof {
        assert(a@.take(n as int) =~= a@);
        assert(b@.take(n as int) =~= b@);
    }
    diff == 0
}

/// Produces and checks challenge tags from the configured secret, if any.
#[derive(Clone)]
pub struct Authenticator {
    secret: Option<Vec<u8>>,
}

impl Authenticator {
    /// The configured secret, as a sequence.
    pub closed spec fn secret_view(&self) -> Option<Seq<u8>> {
        match self.secret {
            Some(s) => Some(s@),
            None => None,
        }
    }

    /// Whether a handshake must authenticate at all.
    pub open spec fn enabled(&self) -> bool {
        self.secret_view() is Some
    }

    pub fn new(secret: Option<Vec<u8>>) -> (a: Authenticator)
        ensures
            a.secret_view() == match secret {
                Some(s) => Some(s@),
                None => None::<Seq<u8>>,
            },
    {
        Authenticator { secret }
    }

    pub fn required(&self) -> (r: bool)
        ensures r == self.enabled(),
    {
        self.secret.is_some()
    }

    /// The tag this side sends, or expects back, for `nonce`.
    pub fn tag_for(&self, nonce: u128) -> (r: Vec<u8>)
        requires self.enabled(),
        ensures
            r@ == tag_spec(self.secret_view()->0, nonce),
            r@.len() == TAG_LEN,
    {
        let s = self.secret.as_ref().unwrap();
        let mut nb: Vec<u8> = Vec::new();
        push_u128(&mut nb, nonce);
        hmac_sha256(s, &nb)
    }

    /// Whether `tag` is the right answer to `Challenge(nonce)`.
    pub fn verify_tag(&self, nonce: u128, tag: &Vec<u8>) -> (r: bool)
        requires self.enabled(),
        ensures r == tag_matches(self.secret_view()->0, nonce, tag@),
    {
        let expected = self.tag_for(nonce);
        bytes_equal(&expected, tag)
    }
}

/// Law: a tag authenticates exactly the challenge it was computed for. The
/// matching nonce always verifies; a captured tag replayed against a
/// different challenge fails whenever the keyed hash separates the two
/// nonces (as a collision-resistant hash does for distinct nonces).
pub proof fn lemma_tag_binds_nonce(secret: Seq<u8>, nonce: u128, other: u128)
    requires tag_spec(secret, nonce) != tag_spec(secret, other),
    ensures
        tag_matches(secret, nonce, tag_spec(secret, nonce)),
        !tag_matches(secret, other, tag_spec(secret, nonce)),
{
}

} // verus!
