//! What errors say in words.

use vstd::prelude::*;

use crate::annotation::ReceiptError;
use crate::error::{EngineError, ProjectionError};
use crate::hash::BlobDescription;
use crate::ids::{hyphenated_text, Uuid};
use crate::manifest_error::ProjectionManifestError;
use crate::semantics::ExactSourceSemanticDifference;
use crate::store_error::{EntryFault, ProjectionStoreError, Reason, StoreFault};
use crate::text::hex_text;

verus! {

/// The decimal digit of a value below ten.
pub open spec fn decimal_digit(value: nat) -> char {
    seq!['0', '1', '2', '3', '4', '5', '6', '7', '8', '9'][value as int]
}

/// The decimal digits of a number.
pub open spec fn decimal_text(value: nat) -> Seq<char>
    decreases value,
{
    if value < 10 {
        seq![decimal_digit(value)]
    } else {
        decimal_text(value / 10).push(decimal_digit(value % 10))
    }
}

/// Writes the decimal digits of a number behind a text.
fn append_decimal(out: &mut String, value: u64)
    ensures
        final(out)@ == old(out)@ + decimal_text(value as nat),
    decreases value,
{
    if value >= 10 {
        append_decimal(out, value / 10);
    }
    let ghost before = out@;
    let digit = match value % 10 {
        0 => "0",
        1 => "1",
        2 => "2",
        3 => "3",
        4 => "4",
        5 => "5",
        6 => "6",
        7 => "7",
        8 => "8",
        _ => "9",
    };
    out.append(digit);
    proof {
        reveal_strlit("0");
        reveal_strlit("1");
        reveal_strlit("2");
        reveal_strlit("3");
        reveal_strlit("4");
        reveal_strlit("5");
        reveal_strlit("6");
        reveal_strlit("7");
        reveal_strlit("8");
        reveal_strlit("9");
        assert(digit@ =~= seq![decimal_digit((value % 10) as nat)]);
        assert(out@ =~= old(out)@ + decimal_text(value as nat));
    }
}

/// The components of a locator, in brackets and with commas between them.
pub open spec fn locator_parts(locator: Seq<u32>, n: nat) -> Seq<char>
    decreases n,
{
    if n == 0 {
        Seq::empty()
    } else if n == 1 {
        decimal_text(locator[0] as nat)
    } else {
        locator_parts(locator, (n - 1) as nat) + ", "@ + decimal_text(locator[n - 1] as nat)
    }
}

/// A locator in brackets.
pub open spec fn locator_text(locator: Seq<u32>) -> Seq<char> {
    "["@ + locator_parts(locator, locator.len()) + "]"@
}

/// Writes a locator behind a text.
fn append_locator(out: &mut String, locator: &Vec<u32>)
    ensures
        final(out)@ == old(out)@ + locator_text(locator@),
{
    out.append("[");
    let ghost start = out@;
    let mut at: usize = 0;
    while at < locator.len()
        invariant
            at <= locator@.len(),
            out@ == start + locator_parts(locator@, at as nat),
        decreases locator@.len() - at,
    {
        let ghost before = out@;
        if at > 0 {
            out.append(", ");
        }
        append_decimal(out, locator[at] as u64);
        at = at + 1;
        assert(out@ =~= start + locator_parts(locator@, at as nat));
    }
    out.append("]");
    assert(out@ =~= old(out)@ + locator_text(locator@));
}

/// Words of the surrounding program, for values of which it alone knows how they are written.
#[derive(Clone, Debug, PartialEq, Eq)]
pub struct HostWords {
    /// What it calls a refusal because of an incompatible protocol.
    pub refusal: String,
    /// How it writes the description of bytes that an error names, if it names one.
    pub description: String,
}

/// Writes an identifier behind a text.
fn append_uuid(out: &mut String, id: &Uuid)
    ensures
        final(out)@ == old(out)@ + hyphenated_text(id.value),
{
    out.append(id.hyphenated().as_str());
}

/// What a refused manifested object says.
pub open spec fn manifest_error_text(error: ProjectionManifestError) -> Seq<char> {
    match error {
        ProjectionManifestError::Decode(error) => "projection object decode failed: "@ + error@,
        ProjectionManifestError::Encode(error) => "projection object encode failed: "@ + error@,
        ProjectionManifestError::Object(error) => "projection object envelope failed: "@ + error@,
        ProjectionManifestError::InvalidMagic(kind) => "invalid "@ + kind@ + " magic"@,
        ProjectionManifestError::UnknownVersion { kind, expected, found } => {
            "unknown "@ + kind@ + " schema "@ + decimal_text(found as nat) + "; expected "@
                + decimal_text(expected as nat)
        },
        ProjectionManifestError::TooLarge { kind, length, limit } => {
            kind@ + " is too large: "@ + decimal_text(length as nat) + " bytes exceeds "@
                + decimal_text(limit as nat)
        },
        ProjectionManifestError::TooManyAnnotations(count) => {
            "projection object has too many annotations: "@ + decimal_text(count as nat)
        },
        ProjectionManifestError::TooMuchClaimEvidence(count) => {
            "projection object has too much claim evidence: "@ + decimal_text(count as nat)
        },
        ProjectionManifestError::NonCanonical(kind) => kind@ + " is not canonical"@,
        ProjectionManifestError::BlobMismatch(kind) => {
            kind@ + " digest/length does not match bytes"@
        },
        ProjectionManifestError::InvalidAnnotations => "projection annotations are invalid"@,
        ProjectionManifestError::DescriptorDocumentMismatch { kind, expected, found } => {
            kind@ + " descriptor document mismatch: expected "@
                + hyphenated_text(expected.uuid.value) + ", found "@
                + hyphenated_text(found.uuid.value)
        },
        ProjectionManifestError::InvalidBinding(reason) => {
            "invalid projection binding: "@ + reason@
        },
        ProjectionManifestError::DuplicateIntent => "duplicate projection intent"@,
        ProjectionManifestError::DuplicateBase => "duplicate annotated base"@,
        ProjectionManifestError::MissingBaseReference => "projection intent references a missing base"@,
        ProjectionManifestError::BaseReferenceMismatch => "projection intent base reference does not match its descriptor"@,
        ProjectionManifestError::OrphanBase => "manifest contains an orphan annotated base"@,
    }
}

impl ProjectionManifestError {
    /// Writes what the value says behind a text.
    pub fn append_message(&self, out: &mut String)
        ensures
            final(out)@ == old(out)@ + manifest_error_text(*self),
    {
        match self {
            ProjectionManifestError::Decode(error) => {
                out.append("projection object decode failed: ");
                out.append(error.as_str());
            },
            ProjectionManifestError::Encode(error) => {
                out.append("projection object encode failed: ");
                out.append(error.as_str());
            },
            ProjectionManifestError::Object(error) => {
                out.append("projection object envelope failed: ");
                out.append(error.as_str());
            },
            ProjectionManifestError::InvalidMagic(kind) => {
                out.append("invalid ");
                out.append(kind);
                out.append(" magic");
            },
            ProjectionManifestError::UnknownVersion { kind, expected, found } => {
                out.append("unknown ");
                out.append(kind);
                out.append(" schema ");
                append_decimal(out, *found as u64);
                out.append("; expected ");
                append_decimal(out, *expected as u64);
            },
            ProjectionManifestError::TooLarge { kind, length, limit } => {
                out.append(kind);
                out.append(" is too large: ");
                append_decimal(out, *length as u64);
                out.append(" bytes exceeds ");
                append_decimal(out, *limit as u64);
            },
            ProjectionManifestError::TooManyAnnotations(count) => {
                out.append("projection object has too many annotations: ");
                append_decimal(out, *count as u64);
            },
            ProjectionManifestError::TooMuchClaimEvidence(count) => {
                out.append("projection object has too much claim evidence: ");
                append_decimal(out, *count as u64);
            },
            ProjectionManifestError::NonCanonical(kind) => {
                out.append(kind);
                out.append(" is not canonical");
            },
            ProjectionManifestError::BlobMismatch(kind) => {
                out.append(kind);
                out.append(" digest/length does not match bytes");
            },
            ProjectionManifestError::InvalidAnnotations => {
                out.append("projection annotations are invalid");
            },
            ProjectionManifestError::DescriptorDocumentMismatch { kind, expected, found } => {
                out.append(kind);
                out.append(" descriptor document mismatch: expected ");
                append_uuid(out, &expected.uuid);
                out.append(", found ");
                append_uuid(out, &found.uuid);
            },
            ProjectionManifestError::InvalidBinding(reason) => {
                out.append("invalid projection binding: ");
                out.append(reason);
            },
            ProjectionManifestError::DuplicateIntent => {
                out.append("duplicate projection intent");
            },
            ProjectionManifestError::DuplicateBase => {
                out.append("duplicate annotated base");
            },
            ProjectionManifestError::MissingBaseReference => {
                out.append("projection intent references a missing base");
            },
            ProjectionManifestError::BaseReferenceMismatch => {
                out.append("projection intent base reference does not match its descriptor");
            },
            ProjectionManifestError::OrphanBase => {
                out.append("manifest contains an orphan annotated base");
            },
        }
        assert(out@ =~= old(out)@ + manifest_error_text(*self));
    }

    /// What the value says, in words.
    pub fn message(&self) -> (text: String)
        ensures
            text@ == manifest_error_text(*self),
    {
        let mut text = String::new();
        self.append_message(&mut text);
        assert(text@ =~= manifest_error_text(*self));
        text
    }
}

/// What a difference between a page and its source says.
pub open spec fn difference_text(error: ExactSourceSemanticDifference) -> Seq<char> {
    match error {
        ExactSourceSemanticDifference::UnsupportedSourceLayout(detail) => {
            "source layout is not safely importable: "@ + detail@
        },
        ExactSourceSemanticDifference::PreambleOrPageProperties => "page preamble or page properties differ"@,
        ExactSourceSemanticDifference::BlockCount { accepted, source } => {
            "block count differs: accepted="@ + decimal_text(accepted as nat) + ", source="@
                + decimal_text(source as nat)
        },
        ExactSourceSemanticDifference::BlockOrderOrAncestry { accepted_locator, source_locator } => {
            "block order or ancestry differs: accepted locator "@
                + locator_text(accepted_locator@) + ", source locator "@
                + locator_text(source_locator@)
        },
        ExactSourceSemanticDifference::ExplicitBlockIdentity { locator } => {
            "explicit block identity differs at locator "@ + locator_text(locator@)
        },
        ExactSourceSemanticDifference::BlockContent { locator } => {
            "block content differs at locator "@ + locator_text(locator@)
        },
    }
}

impl ExactSourceSemanticDifference {
    /// Writes what the value says behind a text.
    pub fn append_message(&self, out: &mut String)
        ensures
            final(out)@ == old(out)@ + difference_text(*self),
    {
        match self {
            ExactSourceSemanticDifference::UnsupportedSourceLayout(detail) => {
                out.append("source layout is not safely importable: ");
                out.append(detail.as_str());
            },
            ExactSourceSemanticDifference::PreambleOrPageProperties => {
                out.append("page preamble or page properties differ");
            },
            ExactSourceSemanticDifference::BlockCount { accepted, source } => {
                out.append("block count differs: accepted=");
                append_decimal(out, *accepted as u64);
                out.append(", source=");
                append_decimal(out, *source as u64);
            },
            ExactSourceSemanticDifference::BlockOrderOrAncestry { accepted_locator, source_locator } => {
                out.append("block order or ancestry differs: accepted locator ");
                append_locator(out, accepted_locator);
                out.append(", source locator ");
                append_locator(out, source_locator);
            },
            ExactSourceSemanticDifference::ExplicitBlockIdentity { locator } => {
                out.append("explicit block identity differs at locator ");
                append_locator(out, locator);
            },
            ExactSourceSemanticDifference::BlockContent { locator } => {
                out.append("block content differs at locator ");
                append_locator(out, locator);
            },
        }
        assert(out@ =~= old(out)@ + difference_text(*self));
    }

    /// What the value says, in words.
    pub fn message(&self) -> (text: String)
        ensures
            text@ == difference_text(*self),
    {
        let mut text = String::new();
        self.append_message(&mut text);
        assert(text@ =~= difference_text(*self));
        text
    }
}

/// What a refused receipt says.
pub open spec fn receipt_error_text(error: ReceiptError) -> Seq<char> {
    match error {
        ReceiptError::EmptyLocator => "structural locator names no block"@,
        ReceiptError::InvertedSpan => "span ends before it starts"@,
        ReceiptError::AbsentTargetWithBytes => "absent projection target declares bytes"@,
        ReceiptError::CompletionMismatch => "projection completion does not match its intent"@,
        ReceiptError::Codec(error) => "projection receipt codec failed: "@ + error@,
    }
}

impl ReceiptError {
    /// Writes what the value says behind a text.
    pub fn append_message(&self, out: &mut String)
        ensures
            final(out)@ == old(out)@ + receipt_error_text(*self),
    {
        match self {
            ReceiptError::EmptyLocator => {
                out.append("structural locator names no block");
            },
            ReceiptError::InvertedSpan => {
                out.append("span ends before it starts");
            },
            ReceiptError::AbsentTargetWithBytes => {
                out.append("absent projection target declares bytes");
            },
            ReceiptError::CompletionMismatch => {
                out.append("projection completion does not match its intent");
            },
            ReceiptError::Codec(error) => {
                out.append("projection receipt codec failed: ");
                out.append(error.as_str());
            },
        }
        assert(out@ =~= old(out)@ + receipt_error_text(*self));
    }

    /// What the value says, in words.
    pub fn message(&self) -> (text: String)
        ensures
            text@ == receipt_error_text(*self),
    {
        let mut text = String::new();
        self.append_message(&mut text);
        assert(text@ =~= receipt_error_text(*self));
        text
    }
}

/// What a reason says.
pub open spec fn reason_text(error: Reason) -> Seq<char> {
    match error {
        Reason::Own(message) => message@,
        Reason::Named { words, name } => words@ + name@,
        Reason::Reported(message) => message@,
        Reason::Manifest(error) => manifest_error_text(error),
    }
}

impl Reason {
    /// Writes what the value says behind a text.
    pub fn append_message(&self, out: &mut String)
        ensures
            final(out)@ == old(out)@ + reason_text(*self),
    {
        match self {
            Reason::Own(message) => {
                out.append(message);
            },
            Reason::Named { words, name } => {
                out.append(words);
                out.append(name.as_str());
            },
            Reason::Reported(message) => {
                out.append(message.as_str());
            },
            Reason::Manifest(error) => {
                error.append_message(out);
            },
        }
        assert(out@ =~= old(out)@ + reason_text(*self));
    }

    /// What the value says, in words.
    pub fn message(&self) -> (text: String)
        ensures
            text@ == reason_text(*self),
    {
        let mut text = String::new();
        self.append_message(&mut text);
        assert(text@ =~= reason_text(*self));
        text
    }
}

/// What a refusal of the engine says.
pub open spec fn engine_error_text(error: EngineError) -> Seq<char> {
    match error {
        EngineError::ProjectionAuthorizationUnavailable => "projection authorization is unavailable"@,
        EngineError::ProjectionWork(reason) => {
            "projection work is inconsistent: "@ + reason_text(reason)
        },
        EngineError::Other(message) => message@,
    }
}

impl EngineError {
    /// Writes what the value says behind a text.
    pub fn append_message(&self, out: &mut String)
        ensures
            final(out)@ == old(out)@ + engine_error_text(*self),
    {
        match self {
            EngineError::ProjectionAuthorizationUnavailable => {
                out.append("projection authorization is unavailable");
            },
            EngineError::ProjectionWork(reason) => {
                out.append("projection work is inconsistent: ");
                reason.append_message(out);
            },
            EngineError::Other(message) => {
                out.append(message.as_str());
            },
        }
        assert(out@ =~= old(out)@ + engine_error_text(*self));
    }

    /// What the value says, in words.
    pub fn message(&self) -> (text: String)
        ensures
            text@ == engine_error_text(*self),
    {
        let mut text = String::new();
        self.append_message(&mut text);
        assert(text@ =~= engine_error_text(*self));
        text
    }
}

/// What is wrong with an entry of the store.
pub open spec fn entry_fault_text(error: EntryFault) -> Seq<char> {
    match error {
        EntryFault::Own(message) => message@,
        EntryFault::Named { fault, name } => fault@ + ": "@ + name@,
        EntryFault::IntentNamespace { namespace, intent_id, report: None } => {
            namespace@ + "/"@ + hex_text(intent_id.digest.spec_bytes())
        },
        EntryFault::IntentNamespace { namespace, intent_id, report: Some(report) } => {
            namespace@ + "/"@ + hex_text(intent_id.digest.spec_bytes()) + ": "@ + report@
        },
        EntryFault::Reported(message) => message@,
    }
}

impl EntryFault {
    /// Writes what the value says behind a text.
    pub fn append_message(&self, out: &mut String)
        ensures
            final(out)@ == old(out)@ + entry_fault_text(*self),
    {
        match self {
            EntryFault::Own(message) => {
                out.append(message);
            },
            EntryFault::Named { fault, name } => {
                out.append(fault);
                out.append(": ");
                out.append(name.as_str());
            },
            EntryFault::IntentNamespace { namespace, intent_id, report: None } => {
                out.append(namespace);
                out.append("/");
                out.append(intent_id.digest.to_hex().as_str());
            },
            EntryFault::IntentNamespace { namespace, intent_id, report: Some(report) } => {
                out.append(namespace);
                out.append("/");
                out.append(intent_id.digest.to_hex().as_str());
                out.append(": ");
                out.append(report.as_str());
            },
            EntryFault::Reported(message) => {
                out.append(message.as_str());
            },
        }
        assert(out@ =~= old(out)@ + entry_fault_text(*self));
    }

    /// What the value says, in words.
    pub fn message(&self) -> (text: String)
        ensures
            text@ == entry_fault_text(*self),
    {
        let mut text = String::new();
        self.append_message(&mut text);
        assert(text@ =~= entry_fault_text(*self));
        text
    }
}

/// What the storage below the receipt store reported.
pub open spec fn store_fault_text(error: StoreFault) -> Seq<char> {
    match error {
        StoreFault::Io(failure) => reason_text(failure.message),
        StoreFault::UnsafeEntry(fault) => "unsafe store entry: "@ + entry_fault_text(fault),
        StoreFault::StoredLengthMismatch { path, expected, actual } => {
            "stored length mismatch at "@ + path@ + ": expected "@ + decimal_text(expected as nat)
                + ", found "@ + decimal_text(actual as nat)
        },
        StoreFault::StoredFileTooLarge { path, length, limit } => {
            "stored file "@ + path@ + " is too large: "@ + decimal_text(length as nat)
                + " bytes exceeds "@ + decimal_text(limit as nat)
        },
        StoreFault::ImmutableCollision(kind) => {
            "immutable "@ + kind@ + " differs from the stored bytes"@
        },
        StoreFault::Reported(message) => message@,
    }
}

impl StoreFault {
    /// Writes what the value says behind a text.
    pub fn append_message(&self, out: &mut String)
        ensures
            final(out)@ == old(out)@ + store_fault_text(*self),
    {
        match self {
            StoreFault::Io(failure) => {
                failure.message.append_message(out);
            },
            StoreFault::UnsafeEntry(fault) => {
                out.append("unsafe store entry: ");
                fault.append_message(out);
            },
            StoreFault::StoredLengthMismatch { path, expected, actual } => {
                out.append("stored length mismatch at ");
                out.append(path.as_str());
                out.append(": expected ");
                append_decimal(out, *expected as u64);
                out.append(", found ");
                append_decimal(out, *actual as u64);
            },
            StoreFault::StoredFileTooLarge { path, length, limit } => {
                out.append("stored file ");
                out.append(path.as_str());
                out.append(" is too large: ");
                append_decimal(out, *length as u64);
                out.append(" bytes exceeds ");
                append_decimal(out, *limit as u64);
            },
            StoreFault::ImmutableCollision(kind) => {
                out.append("immutable ");
                out.append(kind);
                out.append(" differs from the stored bytes");
            },
            StoreFault::Reported(message) => {
                out.append(message.as_str());
            },
        }
        assert(out@ =~= old(out)@ + store_fault_text(*self));
    }

    /// What the value says, in words.
    pub fn message(&self) -> (text: String)
        ensures
            text@ == store_fault_text(*self),
    {
        let mut text = String::new();
        self.append_message(&mut text);
        assert(text@ =~= store_fault_text(*self));
        text
    }
}

/// The description of bytes that an error of the receipt store names.
pub open spec fn described_bytes(error: ProjectionStoreError) -> Option<BlobDescription>
    decreases error,
{
    match error {
        ProjectionStoreError::MissingBase(description) => Some(description),
        ProjectionStoreError::BaseEvidenceMismatch(description) => Some(description),
        ProjectionStoreError::Operation { operation: _, source } => described_bytes(*source),
        _ => None,
    }
}

/// What an error of the receipt store says. `words` are those of the surrounding program for what
/// the error names.
pub open spec fn store_error_text(error: ProjectionStoreError, words: HostWords) -> Seq<char>
    decreases error,
{
    match error {
        ProjectionStoreError::Io(failure) => reason_text(failure.message),
        ProjectionStoreError::Store(fault) => store_fault_text(fault),
        ProjectionStoreError::Operation { operation, source } => {
            entry_fault_text(operation) + ": "@ + store_error_text(*source, words)
        },
        ProjectionStoreError::Receipt(error) => receipt_error_text(error),
        ProjectionStoreError::UnsafeEntry(fault) => {
            "unsafe projection store entry: "@ + entry_fault_text(fault)
        },
        ProjectionStoreError::UnknownStoreVersion(version) => {
            "unknown projection store version "@ + decimal_text(version as nat)
        },
        ProjectionStoreError::UpgradeRequired { found, current } => {
            "projection receipt store version "@ + decimal_text(found as nat)
                + " requires upgrade to "@ + decimal_text(current as nat)
                + ": this pre-0.7 private state must be backed up and rebuilt from the intact Markdown/Org tree by the graph-open lifecycle ["@
                + words.refusal@ + "]"@
        },
        ProjectionStoreError::MalformedStoreClaim => "malformed projection store claim"@,
        ProjectionStoreError::ClaimlessNonemptyStore => "claimless nonempty projection receipt store cannot be initialized"@,
        ProjectionStoreError::NamespaceSubstitution(fault) => {
            "projection receipt namespace no longer denotes retained resource: "@
                + entry_fault_text(fault)
        },
        ProjectionStoreError::EndpointBindingMismatch => "projection receipt store endpoint enrollment mismatch"@,
        ProjectionStoreError::GraphResourceMismatch => "projection graph capability does not match endpoint enrollment"@,
        ProjectionStoreError::CapturedInputMismatch => "capability-captured projection input does not match its completion"@,
        ProjectionStoreError::MissingPriorCompletion => "present projection input has no durable prior completion"@,
        ProjectionStoreError::WorkspaceMismatch { expected, found } => {
            "workspace mismatch: expected "@ + hyphenated_text(expected.uuid.value) + ", found "@
                + hyphenated_text(found.uuid.value)
        },
        ProjectionStoreError::MissingBase(description) => {
            "missing immutable projection base "@ + words.description@
        },
        ProjectionStoreError::UnexpectedBase => "base bytes were supplied for an absent projection precondition"@,
        ProjectionStoreError::MissingIntent(intent_id) => {
            "missing immutable projection intent "@ + hex_text(intent_id.digest.spec_bytes())
        },
        ProjectionStoreError::BaseEvidenceMismatch(description) => {
            "projection base evidence mismatch for "@ + words.description@
        },
        ProjectionStoreError::PathBindingMismatch(kind) => {
            kind@ + " bytes do not match their canonical path"@
        },
        ProjectionStoreError::NonCanonical(kind) => kind@ + " bytes are not canonical"@,
        ProjectionStoreError::IntentCollision(intent_id) => {
            "stored projection intent differs at "@ + hex_text(intent_id.digest.spec_bytes())
        },
        ProjectionStoreError::EvidenceTooLarge { kind, declared, limit } => {
            kind@ + " declares "@ + decimal_text(declared as nat)
                + " bytes, exceeding reload limit "@ + decimal_text(limit as nat)
        },
        ProjectionStoreError::MalformedEvidenceName(name) => {
            "malformed projection evidence name: "@ + name@
        },
        ProjectionStoreError::OrphanCompletion(name) => {
            "projection completion has no matching intent: "@ + name@
        },
        ProjectionStoreError::WriteProofMismatch => "Graph write proof does not match the exact projection intent"@,
        ProjectionStoreError::RecoveryTargetMismatch => "current bytes do not equal the exact replayed projection target"@,
        ProjectionStoreError::AttemptBindingMismatch => "local projection attempt is not canonically bound to its intent"@,
        ProjectionStoreError::MissingTurnAttemptContext => "managed projection mutation has no turn-derived attempt identity"@,
        ProjectionStoreError::MutationAuthorityMismatch => "projection mutation authority does not match the durable operation"@,
        ProjectionStoreError::MutationAuthorityPending => "projection mutation authority is pending recovery"@,
        ProjectionStoreError::MutationAuthorityTooLarge { attempts, bytes } => {
            "projection mutation authority exceeds its bound: "@ + decimal_text(attempts as nat)
                + " attempts, "@ + decimal_text(bytes as nat) + " bytes"@
        },
        ProjectionStoreError::ForensicBindingMismatch => "local projection forensic evidence is not bound to its attempt"@,
        ProjectionStoreError::UnreservedRecoveryEvidence => "Graph returned recovery evidence without a durable reservation"@,
        ProjectionStoreError::Decode(error) => {
            "local projection evidence decode failed: "@ + error@
        },
        ProjectionStoreError::Encode(error) => {
            "local projection evidence encode failed: "@ + error@
        },
    }
}

impl ProjectionStoreError {
    /// The description of bytes that the error names.
    pub fn described(&self) -> (description: Option<BlobDescription>)
        ensures
            description == described_bytes(*self),
        decreases self,
    {
        match self {
            ProjectionStoreError::MissingBase(description) => Some(*description),
            ProjectionStoreError::BaseEvidenceMismatch(description) => Some(*description),
            ProjectionStoreError::Operation { operation: _, source } => source.described(),
            _ => None,
        }
    }

    /// Writes what the value says behind a text.
    pub fn append_message(&self, words: &HostWords, out: &mut String)
        ensures
            final(out)@ == old(out)@ + store_error_text(*self, *words),
        decreases self,
    {
        match self {
            ProjectionStoreError::Io(failure) => {
                failure.message.append_message(out);
            },
            ProjectionStoreError::Store(fault) => {
                fault.append_message(out);
            },
            ProjectionStoreError::Operation { operation, source } => {
                operation.append_message(out);
                out.append(": ");
                source.append_message(words, out);
            },
            ProjectionStoreError::Receipt(error) => {
                error.append_message(out);
            },
            ProjectionStoreError::UnsafeEntry(fault) => {
                out.append("unsafe projection store entry: ");
                fault.append_message(out);
            },
            ProjectionStoreError::UnknownStoreVersion(version) => {
                out.append("unknown projection store version ");
                append_decimal(out, *version as u64);
            },
            ProjectionStoreError::UpgradeRequired { found, current } => {
                out.append("projection receipt store version ");
                append_decimal(out, *found as u64);
                out.append(" requires upgrade to ");
                append_decimal(out, *current as u64);
                out.append(": this pre-0.7 private state must be backed up and rebuilt from the intact Markdown/Org tree by the graph-open lifecycle [");
                out.append(words.refusal.as_str());
                out.append("]");
            },
            ProjectionStoreError::MalformedStoreClaim => {
                out.append("malformed projection store claim");
            },
            ProjectionStoreError::ClaimlessNonemptyStore => {
                out.append("claimless nonempty projection receipt store cannot be initialized");
            },
            ProjectionStoreError::NamespaceSubstitution(fault) => {
                out.append("projection receipt namespace no longer denotes retained resource: ");
                fault.append_message(out);
            },
            ProjectionStoreError::EndpointBindingMismatch => {
                out.append("projection receipt store endpoint enrollment mismatch");
            },
            ProjectionStoreError::GraphResourceMismatch => {
                out.append("projection graph capability does not match endpoint enrollment");
            },
            ProjectionStoreError::CapturedInputMismatch => {
                out.append("capability-captured projection input does not match its completion");
            },
            ProjectionStoreError::MissingPriorCompletion => {
                out.append("present projection input has no durable prior completion");
            },
            ProjectionStoreError::WorkspaceMismatch { expected, found } => {
                out.append("workspace mismatch: expected ");
                append_uuid(out, &expected.uuid);
                out.append(", found ");
                append_uuid(out, &found.uuid);
            },
            ProjectionStoreError::MissingBase(_) => {
                out.append("missing immutable projection base ");
                out.append(words.description.as_str());
            },
            ProjectionStoreError::UnexpectedBase => {
                out.append("base bytes were supplied for an absent projection precondition");
            },
            ProjectionStoreError::MissingIntent(intent_id) => {
                out.append("missing immutable projection intent ");
                out.append(intent_id.digest.to_hex().as_str());
            },
            ProjectionStoreError::BaseEvidenceMismatch(_) => {
                out.append("projection base evidence mismatch for ");
                out.append(words.description.as_str());
            },
            ProjectionStoreError::PathBindingMismatch(kind) => {
                out.append(kind);
                out.append(" bytes do not match their canonical path");
            },
            ProjectionStoreError::NonCanonical(kind) => {
                out.append(kind);
                out.append(" bytes are not canonical");
            },
            ProjectionStoreError::IntentCollision(intent_id) => {
                out.append("stored projection intent differs at ");
                out.append(intent_id.digest.to_hex().as_str());
            },
            ProjectionStoreError::EvidenceTooLarge { kind, declared, limit } => {
                out.append(kind);
                out.append(" declares ");
                append_decimal(out, *declared as u64);
                out.append(" bytes, exceeding reload limit ");
                append_decimal(out, *limit as u64);
            },
            ProjectionStoreError::MalformedEvidenceName(name) => {
                out.append("malformed projection evidence name: ");
                out.append(name.as_str());
            },
            ProjectionStoreError::OrphanCompletion(name) => {
                out.append("projection completion has no matching intent: ");
                out.append(name.as_str());
            },
            ProjectionStoreError::WriteProofMismatch => {
                out.append("Graph write proof does not match the exact projection intent");
            },
            ProjectionStoreError::RecoveryTargetMismatch => {
                out.append("current bytes do not equal the exact replayed projection target");
            },
            ProjectionStoreError::AttemptBindingMismatch => {
                out.append("local projection attempt is not canonically bound to its intent");
            },
            ProjectionStoreError::MissingTurnAttemptContext => {
                out.append("managed projection mutation has no turn-derived attempt identity");
            },
            ProjectionStoreError::MutationAuthorityMismatch => {
                out.append("projection mutation authority does not match the durable operation");
            },
            ProjectionStoreError::MutationAuthorityPending => {
                out.append("projection mutation authority is pending recovery");
            },
            ProjectionStoreError::MutationAuthorityTooLarge { attempts, bytes } => {
                out.append("projection mutation authority exceeds its bound: ");
                append_decimal(out, *attempts as u64);
                out.append(" attempts, ");
                append_decimal(out, *bytes as u64);
                out.append(" bytes");
            },
            ProjectionStoreError::ForensicBindingMismatch => {
                out.append("local projection forensic evidence is not bound to its attempt");
            },
            ProjectionStoreError::UnreservedRecoveryEvidence => {
                out.append("Graph returned recovery evidence without a durable reservation");
            },
            ProjectionStoreError::Decode(error) => {
                out.append("local projection evidence decode failed: ");
                out.append(error.as_str());
            },
            ProjectionStoreError::Encode(error) => {
                out.append("local projection evidence encode failed: ");
                out.append(error.as_str());
            },
        }
        assert(out@ =~= old(out)@ + store_error_text(*self, *words));
    }

    /// What the value says, in words.
    pub fn message(&self, words: &HostWords) -> (text: String)
        ensures
            text@ == store_error_text(*self, *words),
    {
        let mut text = String::new();
        self.append_message(words, &mut text);
        assert(text@ =~= store_error_text(*self, *words));
        text
    }
}

/// What an error of a projection says. `words` are those of the surrounding program for what the
/// error names.
pub open spec fn projection_error_text(error: ProjectionError, words: HostWords) -> Seq<char> {
    match error {
        ProjectionError::Io(failure) => reason_text(failure.message),
        ProjectionError::GuardedConflict(failure) => reason_text(failure.message),
        ProjectionError::Engine(error) => engine_error_text(error),
        ProjectionError::Receipt(error) => receipt_error_text(error),
        ProjectionError::Store(error) => store_error_text(*error, words),
        ProjectionError::InvalidUtf8(kind) => kind@ + " is not valid UTF-8"@,
        ProjectionError::UnsupportedFormat(path) => "unsupported projection page format: "@ + path@,
        ProjectionError::DuplicateBlock(block) => {
            "duplicate materialized block "@ + hyphenated_text(block.uuid.value)
        },
        ProjectionError::MissingParent { block, parent } => {
            "block "@ + hyphenated_text(block.uuid.value) + " names missing parent "@
                + hyphenated_text(parent.uuid.value)
        },
        ProjectionError::CyclicTree(block) => {
            "materialized hierarchy cycles at "@ + hyphenated_text(block.uuid.value)
        },
        ProjectionError::EmptyOrder(block) => {
            "block "@ + hyphenated_text(block.uuid.value) + " has an empty order key"@
        },
        ProjectionError::DuplicateLogseqClaim(id) => {
            "duplicate materialized Logseq UUID claim "@ + hyphenated_text(id.uuid.value)
        },
        ProjectionError::AmbiguousRawLogseqId(id) => {
            "raw Logseq UUID "@ + hyphenated_text(id.uuid.value) + " is ambiguous"@
        },
        ProjectionError::InconsistentLogseqIdentityOrigin(block) => {
            "block "@ + hyphenated_text(block.uuid.value)
                + " has inconsistent Logseq identity origin"@
        },
        ProjectionError::MissingExternalRawLogseqId { block, logseq_uuid } => {
            "external/imported Logseq UUID "@ + hyphenated_text(logseq_uuid.uuid.value)
                + " is not raw metadata on block "@ + hyphenated_text(block.uuid.value)
        },
        ProjectionError::ParserSpanMismatch => "lsdoc property span does not map to authoritative block bytes"@,
        ProjectionError::SpanInstrumentationMismatch => "serialized projection spans do not reconstruct exact target bytes"@,
        ProjectionError::TreeTooWide => "materialized hierarchy exceeds locator width"@,
        ProjectionError::ProjectionTooLarge => "projection exceeds receipt span range"@,
        ProjectionError::RecoveryIntentMismatch => "accepted engine replay does not match incomplete projection intent"@,
        ProjectionError::ReceiverSourceMismatch => "receiver and source projection workspaces do not match"@,
        ProjectionError::ReceiverEndpointIsSource => "receiver-local derivation requires a non-source endpoint"@,
        ProjectionError::ReceiverSourceAbsent => "receiver-local Present projection cannot derive from an Absent target"@,
        ProjectionError::ReceiverBaseMismatch => "receiver deletion target lacks exact prior completed projection authority"@,
        ProjectionError::EndpointBindingMismatch => "projection endpoint is not enrolled to this graph capability"@,
        ProjectionError::Archive(reason) => {
            "immutable projection archive failed: "@ + reason_text(reason)
        },
        ProjectionError::Work(reason) => "projection work index failed: "@ + reason_text(reason),
        ProjectionError::WorkNotReady => "projection work is not ready"@,
        ProjectionError::WorkIntentMismatch => "projection work does not match its immutable intent/base objects"@,
    }
}

impl ProjectionError {
    /// The description of bytes that the error names.
    pub fn described(&self) -> (description: Option<BlobDescription>)
        ensures
            description == (match *self {
                ProjectionError::Store(error) => described_bytes(*error),
                _ => None,
            }),
    {
        match self {
            ProjectionError::Store(error) => error.described(),
            _ => None,
        }
    }

    /// Writes what the value says behind a text.
    pub fn append_message(&self, words: &HostWords, out: &mut String)
        ensures
            final(out)@ == old(out)@ + projection_error_text(*self, *words),
    {
        match self {
            ProjectionError::Io(failure) => {
                failure.message.append_message(out);
            },
            ProjectionError::GuardedConflict(failure) => {
                failure.message.append_message(out);
            },
            ProjectionError::Engine(error) => {
                error.append_message(out);
            },
            ProjectionError::Receipt(error) => {
                error.append_message(out);
            },
            ProjectionError::Store(error) => {
                error.append_message(words, out);
            },
            ProjectionError::InvalidUtf8(kind) => {
                out.append(kind);
                out.append(" is not valid UTF-8");
            },
            ProjectionError::UnsupportedFormat(path) => {
                out.append("unsupported projection page format: ");
                out.append(path.as_str());
            },
            ProjectionError::DuplicateBlock(block) => {
                out.append("duplicate materialized block ");
                append_uuid(out, &block.uuid);
            },
            ProjectionError::MissingParent { block, parent } => {
                out.append("block ");
                append_uuid(out, &block.uuid);
                out.append(" names missing parent ");
                append_uuid(out, &parent.uuid);
            },
            ProjectionError::CyclicTree(block) => {
                out.append("materialized hierarchy cycles at ");
                append_uuid(out, &block.uuid);
            },
            ProjectionError::EmptyOrder(block) => {
                out.append("block ");
                append_uuid(out, &block.uuid);
                out.append(" has an empty order key");
            },
            ProjectionError::DuplicateLogseqClaim(id) => {
                out.append("duplicate materialized Logseq UUID claim ");
                append_uuid(out, &id.uuid);
            },
            ProjectionError::AmbiguousRawLogseqId(id) => {
                out.append("raw Logseq UUID ");
                append_uuid(out, &id.uuid);
                out.append(" is ambiguous");
            },
            ProjectionError::InconsistentLogseqIdentityOrigin(block) => {
                out.append("block ");
                append_uuid(out, &block.uuid);
                out.append(" has inconsistent Logseq identity origin");
            },
            ProjectionError::MissingExternalRawLogseqId { block, logseq_uuid } => {
                out.append("external/imported Logseq UUID ");
                append_uuid(out, &logseq_uuid.uuid);
                out.append(" is not raw metadata on block ");
                append_uuid(out, &block.uuid);
            },
            ProjectionError::ParserSpanMismatch => {
                out.append("lsdoc property span does not map to authoritative block bytes");
            },
            ProjectionError::SpanInstrumentationMismatch => {
                out.append("serialized projection spans do not reconstruct exact target bytes");
            },
            ProjectionError::TreeTooWide => {
                out.append("materialized hierarchy exceeds locator width");
            },
            ProjectionError::ProjectionTooLarge => {
                out.append("projection exceeds receipt span range");
            },
            ProjectionError::RecoveryIntentMismatch => {
                out.append("accepted engine replay does not match incomplete projection intent");
            },
            ProjectionError::ReceiverSourceMismatch => {
                out.append("receiver and source projection workspaces do not match");
            },
            ProjectionError::ReceiverEndpointIsSource => {
                out.append("receiver-local derivation requires a non-source endpoint");
            },
            ProjectionError::ReceiverSourceAbsent => {
                out.append("receiver-local Present projection cannot derive from an Absent target");
            },
            ProjectionError::ReceiverBaseMismatch => {
                out.append("receiver deletion target lacks exact prior completed projection authority");
            },
            ProjectionError::EndpointBindingMismatch => {
                out.append("projection endpoint is not enrolled to this graph capability");
            },
            ProjectionError::Archive(reason) => {
                out.append("immutable projection archive failed: ");
                reason.append_message(out);
            },
            ProjectionError::Work(reason) => {
                out.append("projection work index failed: ");
                reason.append_message(out);
            },
            ProjectionError::WorkNotReady => {
                out.append("projection work is not ready");
            },
            ProjectionError::WorkIntentMismatch => {
                out.append("projection work does not match its immutable intent/base objects");
            },
        }
        assert(out@ =~= old(out)@ + projection_error_text(*self, *words));
    }

    /// What the value says, in words.
    pub fn message(&self, words: &HostWords) -> (text: String)
        ensures
            text@ == projection_error_text(*self, *words),
    {
        let mut text = String::new();
        self.append_message(words, &mut text);
        assert(text@ =~= projection_error_text(*self, *words));
        text
    }
}

} // verus!
