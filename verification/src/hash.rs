//! SHA-256 digests and the description of a blob by digest and length.

use sha2::{Digest as _, Sha256};
use vstd::prelude::*;

use crate::bytes::{be_bytes, be_value, push_be, read_be};
use crate::text::{hex_text, push_hex};

verus! {

/// The SHA-256 digest of some bytes.
pub uninterp spec fn sha256(bytes: Seq<u8>) -> Seq<u8>;

/// `Sha256::digest` of the `sha2` crate: the digest of all of `bytes`, thirty-two bytes long.
/// What the digest is, is left to the named result.
#[verifier::external_body]
fn sha256_digest(bytes: &[u8]) -> (digest: [u8; 32])
    ensures
        digest@ == sha256(bytes@),
{
    Sha256::digest(bytes).into()
}

/// A digest of thirty-two bytes, held as its two big-endian halves.
#[derive(Clone, Copy, Debug, PartialEq, Eq, Structural)]
pub struct Digest {
    pub high: u128,
    pub low: u128,
}

impl Digest {
    /// The thirty-two bytes of the digest.
    pub open spec fn spec_bytes(self) -> Seq<u8> {
        be_bytes(self.high as nat, 16) + be_bytes(self.low as nat, 16)
    }

    /// The digest with the given thirty-two bytes.
    pub open spec fn spec_from(bytes: Seq<u8>) -> Digest {
        Digest {
            high: be_value(bytes.subrange(0, 16)) as u128,
            low: be_value(bytes.subrange(16, 32)) as u128,
        }
    }

    /// Whether this digest comes before `other` in the order of their bytes.
    pub open spec fn spec_before(self, other: Digest) -> bool {
        self.high < other.high || (self.high == other.high && self.low < other.low)
    }

    /// The digest with the given bytes.
    pub fn from_bytes(bytes: &[u8]) -> (digest: Digest)
        requires
            bytes@.len() == 32,
        ensures
            digest == Digest::spec_from(bytes@),
            digest.spec_bytes() == bytes@,
    {
        let digest = Digest {
            high: read_be(vstd::slice::slice_subrange(bytes, 0, 16)),
            low: read_be(vstd::slice::slice_subrange(bytes, 16, 32)),
        };
        proof {
            crate::bytes::lemma_be_write_back(bytes@.subrange(0, 16));
            crate::bytes::lemma_be_write_back(bytes@.subrange(16, 32));
            assert(digest.spec_bytes() =~= bytes@);
        }
        digest
    }

    /// The bytes of the digest.
    pub fn to_bytes(self) -> (bytes: Vec<u8>)
        ensures
            bytes@ == self.spec_bytes(),
    {
        let mut bytes: Vec<u8> = Vec::new();
        push_be(&mut bytes, self.high, 16);
        push_be(&mut bytes, self.low, 16);
        assert(bytes@ =~= self.spec_bytes());
        bytes
    }

    /// The digest of some bytes.
    pub fn of(bytes: &[u8]) -> (digest: Digest)
        ensures
            digest == Digest::spec_from(sha256(bytes@)),
            digest.spec_bytes() == sha256(bytes@),
    {
        let digest = sha256_digest(bytes);
        Digest::from_bytes(digest.as_slice())
    }

    /// The sixty-four lower-case hexadecimal digits of the digest.
    pub fn to_hex(self) -> (text: String)
        ensures
            text@ == hex_text(self.spec_bytes()),
    {
        let bytes = self.to_bytes();
        proof {
            self.lemma_bytes();
        }
        let mut text = String::new();
        push_hex(&mut text, bytes.as_slice());
        assert(text@ =~= hex_text(self.spec_bytes()));
        text
    }

    /// A digest has thirty-two bytes and is determined by them.
    pub proof fn lemma_bytes(self)
        ensures
            self.spec_bytes().len() == 32,
            Digest::spec_from(self.spec_bytes()) == self,
    {
        crate::bytes::lemma_be_bytes_len(self.high as nat, 16);
        crate::bytes::lemma_be_bytes_len(self.low as nat, 16);
        crate::bytes::lemma_pow256_widths();
        crate::bytes::lemma_be_round_trip(self.high as nat, 16);
        crate::bytes::lemma_be_round_trip(self.low as nat, 16);
        assert(self.spec_bytes().subrange(0, 16) =~= be_bytes(self.high as nat, 16));
        assert(self.spec_bytes().subrange(16, 32) =~= be_bytes(self.low as nat, 16));
    }
}

/// A blob described by its digest and its length.
#[derive(Clone, Copy, Debug, PartialEq, Eq, Structural)]
pub struct BlobDescription {
    pub sha256: Digest,
    pub byte_length: u64,
}

impl BlobDescription {
    /// The description of the given bytes.
    pub open spec fn spec_of(bytes: Seq<u8>) -> BlobDescription {
        BlobDescription {
            sha256: Digest::spec_from(sha256(bytes)),
            byte_length: bytes.len() as u64,
        }
    }

    /// The description of the given bytes.
    pub fn of(bytes: &[u8]) -> (description: BlobDescription)
        ensures
            description == BlobDescription::spec_of(bytes@),
    {
        BlobDescription { sha256: Digest::of(bytes), byte_length: bytes.len() as u64 }
    }

    /// The digest of the blob.
    pub fn sha256(&self) -> (digest: Digest)
        ensures
            digest == self.sha256,
    {
        self.sha256
    }

    /// The length of the blob.
    pub fn byte_length(&self) -> (length: u64)
        ensures
            length == self.byte_length,
    {
        self.byte_length
    }
}

} // verus!
