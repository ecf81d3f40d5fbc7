//! Identifiers.

use vstd::prelude::*;

use crate::bytes::{be_bytes, be_value, push_be, read_be};
use crate::hash::Digest;
use crate::text::{hex_bytes, hex_text, is_hex_text, push_hex};

verus! {

/// The number that `Uuid::parse_str` reads from a text, most significant byte first.
pub uninterp spec fn uuid_parsed(text: Seq<char>) -> Option<u128>;

/// `Uuid::parse_str` of the `uuid` crate, with any failure as `None`. Thirty-two lower-case
/// hexadecimal digits read as the sixteen bytes they write, and the hyphenated form of a number
/// reads as that number. Which other texts are accepted is left to the named result.
#[verifier::external_body]
fn parse_uuid_text(text: &str) -> (value: Option<u128>)
    ensures
        value == uuid_parsed(text@),
        is_hex_text(text@, 32) ==> value == Some(be_value(hex_bytes(text@)) as u128),
        forall|v: u128| text@ == #[trigger] hyphenated_text(v) ==> value == Some(v),
{
    uuid::Uuid::parse_str(text).ok().map(|parsed| parsed.as_u128())
}

/// The thirty-two hexadecimal digits of a universally unique identifier.
pub open spec fn simple_text(value: u128) -> Seq<char> {
    hex_text(be_bytes(value as nat, 16))
}

/// The digits of an identifier in groups of eight, four, four, four and twelve.
pub open spec fn hyphenated_text(value: u128) -> Seq<char> {
    let digits = simple_text(value);
    digits.subrange(0, 8) + seq!['-'] + digits.subrange(8, 12) + seq!['-'] + digits.subrange(
        12,
        16,
    ) + seq!['-'] + digits.subrange(16, 20) + seq!['-'] + digits.subrange(20, 32)
}

/// The digits of an identifier are thirty-two lower-case hexadecimal digits that write it.
pub proof fn lemma_simple_text(value: u128)
    ensures
        is_hex_text(simple_text(value), 32),
        be_value(hex_bytes(simple_text(value))) == value,
{
    crate::bytes::lemma_be_bytes_len(value as nat, 16);
    crate::bytes::lemma_pow256_widths();
    crate::bytes::lemma_be_round_trip(value as nat, 16);
    crate::text::lemma_hex_round_trip(be_bytes(value as nat, 16));
}

/// Thirty-two lower-case hexadecimal digits are the digits of the number they write.
pub proof fn lemma_simple_text_of(text: Seq<char>)
    requires
        is_hex_text(text, 32),
    ensures
        simple_text(be_value(hex_bytes(text)) as u128) == text,
{
    let bytes = hex_bytes(text);
    crate::bytes::lemma_be_value_bound(bytes);
    crate::bytes::lemma_pow256_widths();
    crate::bytes::lemma_be_write_back(bytes);
    let back = hex_text(bytes);
    assert(back.len() == text.len());
    assert forall|i: int| 0 <= i < text.len() implies back[i] == #[trigger] text[i] by {
        let pair = i / 2;
        assert(is_hex_digit_pair(text, pair));
        assert(i == 2 * pair || i == 2 * pair + 1);
    }
    assert(back =~= text);
}

/// Whether the two digits of byte `pair` are restored from that byte.
spec fn is_hex_digit_pair(text: Seq<char>, pair: int) -> bool {
    &&& crate::text::is_hex_digit(text[2 * pair])
    &&& crate::text::is_hex_digit(text[2 * pair + 1])
}

/// A universally unique identifier as one number, most significant byte first.
#[derive(Clone, Copy, Debug, PartialEq, Eq, PartialOrd, Ord, Hash, Structural)]
pub struct Uuid {
    pub value: u128,
}

impl Uuid {
    /// The sixteen bytes of the identifier.
    pub open spec fn spec_bytes(self) -> Seq<u8> {
        be_bytes(self.value as nat, 16)
    }

    /// The identifier with the given number.
    pub fn from_u128(value: u128) -> (id: Uuid)
        ensures
            id == (Uuid { value }),
    {
        Uuid { value }
    }

    /// The identifier with the given sixteen bytes.
    pub fn from_bytes(bytes: &[u8]) -> (id: Uuid)
        requires
            bytes@.len() == 16,
        ensures
            id.value == be_value(bytes@),
            id.spec_bytes() == bytes@,
    {
        proof {
            crate::bytes::lemma_be_write_back(bytes@);
        }
        Uuid { value: read_be(bytes) }
    }

    /// The sixteen bytes of the identifier.
    pub fn to_bytes(self) -> (bytes: Vec<u8>)
        ensures
            bytes@ == self.spec_bytes(),
    {
        let mut bytes: Vec<u8> = Vec::new();
        push_be(&mut bytes, self.value, 16);
        assert(bytes@ =~= self.spec_bytes());
        bytes
    }

    /// The identifier that a text writes, if it writes one.
    pub fn parse_str(text: &str) -> (id: Option<Uuid>)
        ensures
            id == (match uuid_parsed(text@) {
                Some(value) => Some(Uuid { value }),
                None => None,
            }),
            is_hex_text(text@, 32) ==> id == Some(
                Uuid { value: be_value(hex_bytes(text@)) as u128 },
            ),
            forall|v: u128|
                text@ == #[trigger] hyphenated_text(v) ==> id == Some(Uuid { value: v }),
    {
        match parse_uuid_text(text) {
            Some(value) => Some(Uuid { value }),
            None => None,
        }
    }

    /// The thirty-two hexadecimal digits of the identifier.
    pub fn simple(&self) -> (text: String)
        ensures
            text@ == simple_text(self.value),
    {
        let bytes = self.to_bytes();
        proof {
            crate::bytes::lemma_be_bytes_len(self.value as nat, 16);
        }
        let mut text = String::new();
        push_hex(&mut text, bytes.as_slice());
        assert(text@ =~= simple_text(self.value));
        text
    }

    /// The digits of the identifier in groups joined by hyphens.
    pub fn hyphenated(&self) -> (text: String)
        ensures
            text@ == hyphenated_text(self.value),
    {
        let digits = crate::text::chars_of(self.simple().as_str());
        proof {
            lemma_simple_text(self.value);
        }
        let mut text = String::new();
        let mut index: usize = 0;
        while index < 32
            invariant
                index <= 32,
                digits@ == simple_text(self.value),
                digits@.len() == 32,
                text@ == hyphenated_prefix(digits@, index as int),
            decreases 32 - index,
        {
            if index == 8 || index == 12 || index == 16 || index == 20 {
                text.push('-');
            }
            text.push(digits[index]);
            index += 1;
            assert(text@ =~= hyphenated_prefix(digits@, index as int));
        }
        assert(text@ =~= hyphenated_text(self.value));
        text
    }
}

/// The hyphenated form of the first `count` digits, without a trailing hyphen.
spec fn hyphenated_prefix(digits: Seq<char>, count: int) -> Seq<char> {
    let hyphen = seq!['-'];
    if count <= 8 {
        digits.take(count)
    } else if count <= 12 {
        digits.take(8) + hyphen + digits.subrange(8, count)
    } else if count <= 16 {
        digits.take(8) + hyphen + digits.subrange(8, 12) + hyphen + digits.subrange(12, count)
    } else if count <= 20 {
        digits.take(8) + hyphen + digits.subrange(8, 12) + hyphen + digits.subrange(12, 16) + hyphen
            + digits.subrange(16, count)
    } else {
        digits.take(8) + hyphen + digits.subrange(8, 12) + hyphen + digits.subrange(12, 16) + hyphen
            + digits.subrange(16, 20) + hyphen + digits.subrange(20, count)
    }
}

/// A workspace.
#[derive(Clone, Copy, Debug, PartialEq, Eq, PartialOrd, Ord, Hash, Structural)]
pub struct WorkspaceId {
    pub uuid: Uuid,
}

impl WorkspaceId {
    /// The identifier with the given number.
    pub fn from_uuid(uuid: Uuid) -> (id: WorkspaceId)
        ensures
            id.uuid == uuid,
    {
        WorkspaceId { uuid }
    }

    /// The number of the identifier.
    pub fn as_uuid(&self) -> (uuid: Uuid)
        ensures
            uuid == self.uuid,
    {
        self.uuid
    }
}

/// A batch of operations.
#[derive(Clone, Copy, Debug, PartialEq, Eq, PartialOrd, Ord, Hash, Structural)]
pub struct BatchId {
    pub uuid: Uuid,
}

impl BatchId {
    /// The identifier with the given number.
    pub fn from_uuid(uuid: Uuid) -> (id: BatchId)
        ensures
            id.uuid == uuid,
    {
        BatchId { uuid }
    }

    /// The number of the identifier.
    pub fn as_uuid(&self) -> (uuid: Uuid)
        ensures
            uuid == self.uuid,
    {
        self.uuid
    }
}

/// An authoring device.
#[derive(Clone, Copy, Debug, PartialEq, Eq, PartialOrd, Ord, Hash, Structural)]
pub struct DeviceId {
    pub uuid: Uuid,
}

impl DeviceId {
    /// The identifier with the given number.
    pub fn from_uuid(uuid: Uuid) -> (id: DeviceId)
        ensures
            id.uuid == uuid,
    {
        DeviceId { uuid }
    }

    /// The number of the identifier.
    pub fn as_uuid(&self) -> (uuid: Uuid)
        ensures
            uuid == self.uuid,
    {
        self.uuid
    }
}

/// An authoring session.
#[derive(Clone, Copy, Debug, PartialEq, Eq, PartialOrd, Ord, Hash, Structural)]
pub struct SessionId {
    pub uuid: Uuid,
}

impl SessionId {
    /// The identifier with the given number.
    pub fn from_uuid(uuid: Uuid) -> (id: SessionId)
        ensures
            id.uuid == uuid,
    {
        SessionId { uuid }
    }

    /// The number of the identifier.
    pub fn as_uuid(&self) -> (uuid: Uuid)
        ensures
            uuid == self.uuid,
    {
        self.uuid
    }
}

/// A place that pages are projected to.
#[derive(Clone, Copy, Debug, PartialEq, Eq, PartialOrd, Ord, Hash, Structural)]
pub struct ProjectionEndpointId {
    pub uuid: Uuid,
}

impl ProjectionEndpointId {
    /// The identifier with the given number.
    pub fn from_uuid(uuid: Uuid) -> (id: ProjectionEndpointId)
        ensures
            id.uuid == uuid,
    {
        ProjectionEndpointId { uuid }
    }

    /// The number of the identifier.
    pub fn as_uuid(&self) -> (uuid: Uuid)
        ensures
            uuid == self.uuid,
    {
        self.uuid
    }
}

/// A page.
#[derive(Clone, Copy, Debug, PartialEq, Eq, PartialOrd, Ord, Hash, Structural)]
pub struct PageId {
    pub uuid: Uuid,
}

impl PageId {
    /// The identifier with the given number.
    pub fn from_uuid(uuid: Uuid) -> (id: PageId)
        ensures
            id.uuid == uuid,
    {
        PageId { uuid }
    }

    /// The number of the identifier.
    pub fn as_uuid(&self) -> (uuid: Uuid)
        ensures
            uuid == self.uuid,
    {
        self.uuid
    }
}

/// A document.
#[derive(Clone, Copy, Debug, PartialEq, Eq, PartialOrd, Ord, Hash, Structural)]
pub struct DocumentId {
    pub uuid: Uuid,
}

impl DocumentId {
    /// The identifier with the given number.
    pub fn from_uuid(uuid: Uuid) -> (id: DocumentId)
        ensures
            id.uuid == uuid,
    {
        DocumentId { uuid }
    }

    /// The number of the identifier.
    pub fn as_uuid(&self) -> (uuid: Uuid)
        ensures
            uuid == self.uuid,
    {
        self.uuid
    }
}

/// A block of a page.
#[derive(Clone, Copy, Debug, PartialEq, Eq, PartialOrd, Ord, Hash, Structural)]
pub struct BlockId {
    pub uuid: Uuid,
}

impl BlockId {
    /// The identifier with the given number.
    pub fn from_uuid(uuid: Uuid) -> (id: BlockId)
        ensures
            id.uuid == uuid,
    {
        BlockId { uuid }
    }

    /// The number of the identifier.
    pub fn as_uuid(&self) -> (uuid: Uuid)
        ensures
            uuid == self.uuid,
    {
        self.uuid
    }
}

/// An identity that a block carries in its own text.
#[derive(Clone, Copy, Debug, PartialEq, Eq, PartialOrd, Ord, Hash, Structural)]
pub struct LogseqUuid {
    pub uuid: Uuid,
}

impl LogseqUuid {
    /// The identifier with the given number.
    pub fn from_uuid(uuid: Uuid) -> (id: LogseqUuid)
        ensures
            id.uuid == uuid,
    {
        LogseqUuid { uuid }
    }

    /// The number of the identifier.
    pub fn as_uuid(&self) -> (uuid: Uuid)
        ensures
            uuid == self.uuid,
    {
        self.uuid
    }
}

/// One attempt at a projection.
#[derive(Clone, Copy, Debug, PartialEq, Eq, PartialOrd, Ord, Hash, Structural)]
pub struct ProjectionAttemptId {
    pub uuid: Uuid,
}

impl ProjectionAttemptId {
    /// The identifier with the given number.
    pub fn from_uuid(uuid: Uuid) -> (id: ProjectionAttemptId)
        ensures
            id.uuid == uuid,
    {
        ProjectionAttemptId { uuid }
    }

    /// The number of the identifier.
    pub fn as_uuid(&self) -> (uuid: Uuid)
        ensures
            uuid == self.uuid,
    {
        self.uuid
    }
}

/// The digest of an encoded object.
#[derive(Clone, Copy, Debug, PartialEq, Eq, Structural)]
pub struct ContentDigest {
    pub digest: Digest,
}

impl ContentDigest {
    /// The identity with the given digest.
    pub fn from_digest(digest: Digest) -> (id: ContentDigest)
        ensures
            id.digest == digest,
    {
        ContentDigest { digest }
    }

    /// The digest of the identity.
    pub fn digest(&self) -> (digest: Digest)
        ensures
            digest == self.digest,
    {
        self.digest
    }
}

/// The identity of a projection intent.
#[derive(Clone, Copy, Debug, PartialEq, Eq, Structural)]
pub struct ProjectionIntentId {
    pub digest: Digest,
}

impl ProjectionIntentId {
    /// The identity with the given digest.
    pub fn from_digest(digest: Digest) -> (id: ProjectionIntentId)
        ensures
            id.digest == digest,
    {
        ProjectionIntentId { digest }
    }

    /// The digest of the identity.
    pub fn digest(&self) -> (digest: Digest)
        ensures
            digest == self.digest,
    {
        self.digest
    }
}

/// The identity of a logical completion.
#[derive(Clone, Copy, Debug, PartialEq, Eq, Structural)]
pub struct LogicalCompletionId {
    pub digest: Digest,
}

impl LogicalCompletionId {
    /// The identity with the given digest.
    pub fn from_digest(digest: Digest) -> (id: LogicalCompletionId)
        ensures
            id.digest == digest,
    {
        LogicalCompletionId { digest }
    }

    /// The digest of the identity.
    pub fn digest(&self) -> (digest: Digest)
        ensures
            digest == self.digest,
    {
        self.digest
    }
}

/// The digest of a portable path key.
#[derive(Clone, Copy, Debug, PartialEq, Eq, Structural)]
pub struct PortablePathKeyDigest {
    pub digest: Digest,
}

impl PortablePathKeyDigest {
    /// The identity with the given digest.
    pub fn from_digest(digest: Digest) -> (id: PortablePathKeyDigest)
        ensures
            id.digest == digest,
    {
        PortablePathKeyDigest { digest }
    }

    /// The digest of the identity.
    pub fn digest(&self) -> (digest: Digest)
        ensures
            digest == self.digest,
    {
        self.digest
    }
}

/// The root of a portable path index.
#[derive(Clone, Copy, Debug, PartialEq, Eq, Structural)]
pub struct PortablePathIndexRoot {
    pub digest: Digest,
}

impl PortablePathIndexRoot {
    /// The identity with the given digest.
    pub fn from_digest(digest: Digest) -> (id: PortablePathIndexRoot)
        ensures
            id.digest == digest,
    {
        PortablePathIndexRoot { digest }
    }

    /// The digest of the identity.
    pub fn digest(&self) -> (digest: Digest)
        ensures
            digest == self.digest,
    {
        self.digest
    }
}

/// The identity of a receipt store.
#[derive(Clone, Copy, Debug, PartialEq, Eq, Structural)]
pub struct ProjectionReceiptStoreId {
    pub digest: Digest,
}

impl ProjectionReceiptStoreId {
    /// The identity with the given digest.
    pub fn from_digest(digest: Digest) -> (id: ProjectionReceiptStoreId)
        ensures
            id.digest == digest,
    {
        ProjectionReceiptStoreId { digest }
    }

    /// The digest of the identity.
    pub fn digest(&self) -> (digest: Digest)
        ensures
            digest == self.digest,
    {
        self.digest
    }
}

/// The identity of a graph resource.
#[derive(Clone, Copy, Debug, PartialEq, Eq, Structural)]
pub struct CanonicalGraphResourceId {
    pub digest: Digest,
}

impl CanonicalGraphResourceId {
    /// The identity with the given digest.
    pub fn from_digest(digest: Digest) -> (id: CanonicalGraphResourceId)
        ensures
            id.digest == digest,
    {
        CanonicalGraphResourceId { digest }
    }

    /// The digest of the identity.
    pub fn digest(&self) -> (digest: Digest)
        ensures
            digest == self.digest,
    {
        self.digest
    }
}

} // verus!
