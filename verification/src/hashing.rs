use vstd::prelude::*;

use vstd::string::StrSliceExecFns;
use vstd::utf8::{encode_scalar, encode_utf8};

use crate::bytes::concat_bytes;
use crate::errors::EscrowError;
use crate::hex_str::{hex_of, is_lower_hex_char};
use crate::ids::Commitment;

verus! {

/// The 32-byte Blake2b digest of a byte string. The digest itself is left
/// unspecified; the trusted wrapper below ties it to the outside hash
/// implementation.
pub uninterp spec fn blake2_256_of(data: Seq<u8>) -> Seq<u8>;

/// Relies on sp_crypto_hashing::blake2_256: the 32-byte Blake2b digest of the
/// input, a function of the input bytes alone.
#[verifier::external_body]
pub(crate) fn blake2_256_hash(data: &Vec<u8>) -> (r: Vec<u8>)
    ensures
        r@ == blake2_256_of(data@),
        r@.len() == 32,
{
    sp_crypto_hashing::blake2_256(data.as_slice()).to_vec()
}

/// The commitment bound to a recipient identity and a secret: the digest of
/// the recipient's bytes followed by the secret's bytes. Order-sensitive by
/// construction.
pub open spec fn commitment_of(recipient: Seq<u8>, secret: Seq<u8>) -> Seq<u8> {
    blake2_256_of(recipient + secret)
}

/// Produces the commitment binding `recipient` and `secret`. Empty inputs are
/// refused: they would make commitments predictable and carry no security
/// margin.
pub fn commit(recipient: &Vec<u8>, secret: &Vec<u8>) -> (r: Result<Commitment, EscrowError>)
    ensures
        r is Ok <==> recipient@.len() > 0 && secret@.len() > 0,
        (r matches Ok(c) ==> c@ == commitment_of(recipient@, secret@)),
        (r matches Err(e) ==> e == EscrowError::InvalidRequest),
{
    if recipient.len() == 0 || secret.len() == 0 {
        return Err(EscrowError::InvalidRequest);
    }
    let data = concat_bytes(recipient, secret);
    let digest = blake2_256_hash(&data);
    Ok(Commitment::from_hash(digest))
}

/// Repeated commitments of the same pair agree: the commitment is a function
/// of the recipient and secret bytes alone.
pub proof fn lemma_commit_deterministic(
    recipient: Seq<u8>,
    secret: Seq<u8>,
    c1: Seq<u8>,
    c2: Seq<u8>,
)
    requires
        c1 == commitment_of(recipient, secret),
        c2 == commitment_of(recipient, secret),
    ensures
        c1 == c2,
{
}

/// The hasher binds the plain concatenation of recipient and secret: two
/// pairs whose concatenations are the same byte string share a commitment.
/// Distinct pairs are therefore kept apart only as far as their
/// concatenations differ, the digest keeping distinct inputs apart from
/// there.
pub proof fn lemma_commit_binds_concatenation(
    r1: Seq<u8>,
    s1: Seq<u8>,
    r2: Seq<u8>,
    s2: Seq<u8>,
)
    requires
        r1 + s1 == r2 + s2,
    ensures
        commitment_of(r1, s1) == commitment_of(r2, s2),
{
}

/// A character sequence is empty exactly when its UTF-8 encoding is.
pub proof fn lemma_encode_utf8_empty_iff(chars: Seq<char>)
    ensures
        encode_utf8(chars).len() == 0 <==> chars.len() == 0,
{
    if chars.len() > 0 {
        assert(encode_scalar(chars[0] as u32).len() >= 1);
        assert(encode_utf8(chars).len() >= 1);
    }
}

/// The stateless query surface: hands a caller the puzzle (the commitment in
/// lowercase hexadecimal) for a recipient identity and a password.
pub struct Puzzle;

impl Puzzle {
    /// The lowercase-hex commitment binding `recipient` and `password`, or
    /// `InvalidRequest` if either string is empty.
    pub fn create_puzzle(&self, recipient: String, password: String) -> (r: Result<
        String,
        EscrowError,
    >)
        ensures
            r is Ok <==> recipient@.len() > 0 && password@.len() > 0,
            (r matches Ok(h) ==> h@ == hex_of(
                commitment_of(encode_utf8(recipient@), encode_utf8(password@)),
            ) && h@.len() == 64 && (forall|i: int|
                0 <= i < h@.len() ==> is_lower_hex_char(h@[i]))),
            (r matches Err(e) ==> e == EscrowError::InvalidRequest),
    {
        let rb = recipient.as_str().as_bytes_vec();
        let pb = password.as_str().as_bytes_vec();
        proof {
            lemma_encode_utf8_empty_iff(recipient@);
            lemma_encode_utf8_empty_iff(password@);
        }
        match commit(&rb, &pb) {
            Ok(c) => Ok(c.to_hex()),
            Err(e) => Err(e),
        }
    }
}

} // verus!
