//! The disclaimer's acceptance record, signed so that it cannot be forged
//! by editing the stored state: an acceptance counts only when its
//! HMAC-SHA256 signature matches the one computed with the built-in key.
use vstd::prelude::*;
use vstd::utf8::encode_utf8;
use hmac::Mac;

verus! {

broadcast use vstd::string::group_string_axioms;

/// The built-in signing key; changing it voids every stored acceptance.
pub const HMAC_KEY: &'static str = "XDownload::disclaimer::hmac::v1::7f3d9c2e8b1a4d5f";

/// The payload that is signed.
pub const PAYLOAD: &'static str = "XDownload:disclaimer:accepted";

/// What HMAC-SHA256 computes for a key and a message.
pub uninterp spec fn hmac_sha256_of(key: Seq<u8>, msg: Seq<u8>) -> Seq<u8>;

/// Calls `hmac::Hmac::<sha2::Sha256>::new_from_slice`, `Mac::update` and
/// `Mac::finalize`. The contract claims that the tag is a function of the
/// key and the message (`hmac_sha256_of`) and is 32 bytes long, the
/// SHA-256 output size; creating the MAC never fails, since HMAC accepts a
/// key of any length.
#[verifier::external_body]
fn hmac_sha256(key: &[u8], msg: &[u8]) -> (r: Vec<u8>)
    ensures
        r@ == hmac_sha256_of(key@, msg@),
        r@.len() == 32,
{
    let mut mac = <hmac::Hmac<sha2::Sha256> as Mac>::new_from_slice(key).expect("HMAC accepts any key length");
    mac.update(msg);
    mac.finalize().into_bytes().to_vec()
}

/// The signature of an accepted state.
pub open spec fn spec_signature() -> Seq<u8> {
    hmac_sha256_of(encode_utf8(HMAC_KEY@), encode_utf8(PAYLOAD@))
}

/// Computes the signature of an accepted state.
pub fn sign() -> (r: Vec<u8>)
    ensures
        r@ == spec_signature(),
        r@.len() == 32,
{
    hmac_sha256(HMAC_KEY.as_bytes(), PAYLOAD.as_bytes())
}

/// Whether a stored signature is the expected one, compared in constant
/// time (every byte is looked at).
pub fn verify(sig: &[u8]) -> (r: bool)
    ensures
        r == (sig@ == spec_signature()),
{
    let expected = sign();
    if expected.len() != sig.len() {
        return false;
    }
    let mut diff: u8 = 0;
    let mut i: usize = 0;
    while i < expected.len()
        invariant
            i <= expected@.len(),
            expected@.len() == sig@.len(),
            expected@ == spec_signature(),
            (diff == 0) == (forall|j: int| 0 <= j < i ==> #[trigger] expected@[j] == sig@[j]),
        decreases expected@.len() - i,
    {
        let a = expected[i];
        let b = sig[i];
        let d = diff;
        let nd = d | (a ^ b);
        assert(nd == 0 <==> (d == 0 && a == b)) by (bit_vector)
            requires
                nd == d | (a ^ b),
        ;
        diff = nd;
        i = i + 1;
    }
    proof {
        if diff == 0 {
            assert(sig@ =~= expected@);
        } else {
            assert(sig@ != expected@);
        }
    }
    diff == 0
}

/// The acceptance state that is stored: the flag and the signature.
pub struct AcceptanceRecord {
    pub flag: u32,
    pub signature: Vec<u8>,
}

/// A stored acceptance counts when the flag is 1 and the signature is the
/// expected one.
pub open spec fn spec_is_accepted(flag: u32, sig: Option<Seq<u8>>) -> bool {
    flag == 1 && sig == Some(spec_signature())
}

/// The record to store when the user accepts the disclaimer: flag 1 and
/// the signature.
pub fn accept() -> (r: AcceptanceRecord)
    ensures
        r.flag == 1,
        r.signature@ == spec_signature(),
{
    AcceptanceRecord { flag: 1, signature: sign() }
}

/// What accepting stores is read back as accepted.
pub proof fn law_accept_then_accepted(rec: AcceptanceRecord)
    requires
        rec.flag == 1,
        rec.signature@ == spec_signature(),
    ensures
        spec_is_accepted(rec.flag, Some(rec.signature@)),
{
}

/// Whether a stored acceptance counts: the flag is 1 and the stored
/// signature verifies.
pub fn is_accepted(flag: u32, sig: Option<&[u8]>) -> (r: bool)
    ensures
        r == spec_is_accepted(
            flag,
            match sig {
                Some(s) => Some(s@),
                None => None,
            },
        ),
{
    if flag != 1 {
        return false;
    }
    match sig {
        Some(s) => verify(s),
        None => false,
    }
}

} // verus!
