use vstd::prelude::*;

use crate::bytes::{bytes_eq, copy_bytes};
use crate::hex_str::{hex_encode, hex_of, is_lower_hex_char, lemma_hex_of_chars, lemma_hex_of_len};

verus! {

/// An account in the host ledger's address space: the authenticated identity
/// of a caller, the identity a commitment is bound to, or a derived escrow
/// holding account. It is opaque bytes to this crate.
#[derive(Debug)]
pub struct AccountId {
    bytes: Vec<u8>,
}

impl View for AccountId {
    type V = Seq<u8>;

    closed spec fn view(&self) -> Seq<u8> {
        self.bytes@
    }
}

impl AccountId {
    pub fn new(bytes: Vec<u8>) -> (r: AccountId)
        ensures
            r@ == bytes@,
    {
        AccountId { bytes }
    }

    pub fn as_bytes(&self) -> (r: &Vec<u8>)
        ensures
            r@ == self@,
    {
        &self.bytes
    }

    /// A fresh account identifier for the same account.
    pub fn duplicate(&self) -> (r: AccountId)
        ensures
            r@ == self@,
    {
        AccountId { bytes: copy_bytes(&self.bytes) }
    }

    /// Whether the two identifiers name the same account.
    pub fn equals(&self, other: &AccountId) -> (r: bool)
        ensures
            r == (self@ == other@),
    {
        bytes_eq(&self.bytes, &other.bytes)
    }
}

/// A 32-byte commitment binding a recipient identity and a secret: the unique
/// key of an escrow. Produced by the commitment hasher; callers construct one
/// ad hoc only to look an escrow up.
#[derive(Debug)]
pub struct Commitment {
    bytes: Vec<u8>,
}

impl View for Commitment {
    type V = Seq<u8>;

    closed spec fn view(&self) -> Seq<u8> {
        self.bytes@
    }
}

impl Commitment {
    #[verifier::type_invariant]
    spec fn wf(self) -> bool {
        self.bytes@.len() == 32
    }

    /// Wraps a digest that is already known to be 32 bytes.
    pub(crate) fn from_hash(bytes: Vec<u8>) -> (r: Commitment)
        requires
            bytes@.len() == 32,
        ensures
            r@ == bytes@,
    {
        Commitment { bytes }
    }

    /// Wraps caller-supplied bytes for looking an escrow up; anything but
    /// exactly 32 bytes is refused.
    pub fn from_bytes(bytes: Vec<u8>) -> (r: Option<Commitment>)
        ensures
            r is Some <==> bytes@.len() == 32,
            (r matches Some(c) ==> c@ == bytes@),
    {
        if bytes.len() == 32 {
            Some(Commitment { bytes })
        } else {
            None
        }
    }

    pub fn as_bytes(&self) -> (r: &Vec<u8>)
        ensures
            r@ == self@,
            r@.len() == 32,
    {
        proof {
            use_type_invariant(self);
        }
        &self.bytes
    }

    /// A fresh value of the same commitment.
    pub fn duplicate(&self) -> (r: Commitment)
        ensures
            r@ == self@,
    {
        proof {
            use_type_invariant(self);
        }
        Commitment { bytes: copy_bytes(&self.bytes) }
    }

    /// Whether the two values are the same commitment.
    pub fn equals(&self, other: &Commitment) -> (r: bool)
        ensures
            r == (self@ == other@),
    {
        bytes_eq(&self.bytes, &other.bytes)
    }

    /// The commitment as 64 lowercase hexadecimal characters, for external
    /// presentation.
    pub fn to_hex(&self) -> (r: String)
        ensures
            r@ == hex_of(self@),
            r@.len() == 64,
            forall|i: int| 0 <= i < r@.len() ==> is_lower_hex_char(r@[i]),
    {
        proof {
            use_type_invariant(self);
            lemma_hex_of_len(self@);
            lemma_hex_of_chars(self@);
        }
        hex_encode(&self.bytes)
    }
}

} // verus!
