//! The names of the receipt store's directories and files.

use vstd::prelude::*;

use crate::hash::{BlobDescription, Digest};
use crate::ids::{
    hyphenated_text, lemma_simple_text, lemma_simple_text_of, simple_text, ProjectionIntentId, Uuid,
};
use crate::store_error::ProjectionStoreError;
use crate::text::{
    chars_of, check_hex_text, hex_text, is_hex_text, lemma_hex_injective, lemma_hex_round_trip,
    same_text, string_of,
};

verus! {

/// The directory of base bytes.
pub const BASES_DIR: &'static str = "bases";

/// The directory of intents.
pub const INTENTS_DIR: &'static str = "intents";

/// The directory of completions.
pub const COMPLETIONS_DIR: &'static str = "completions";

/// The directory of reserved attempts, one directory for each intent.
pub const ATTEMPTS_DIR: &'static str = "attempts";

/// The directory of forensic evidence, one directory for each intent.
pub const FORENSICS_DIR: &'static str = "forensics";

/// The directory of pending cleanups, inside that of forensic evidence.
pub const PENDING_CLEANUP_DIR: &'static str = "pending-cleanup";

/// The file that binds the directory of pending cleanups.
pub const PENDING_CLEANUP_AUTHORITY: &'static str = "pending-cleanup.namespace-authority";

/// The file that says which round of pending cleanups is active.
pub const PENDING_CLEANUP_ROUND_STATE: &'static str = "round-state";

/// The directory of the first round of pending cleanups.
pub const PENDING_CLEANUP_ROUND_0_DIR: &'static str = "round-0";

/// The directory of the second round of pending cleanups.
pub const PENDING_CLEANUP_ROUND_1_DIR: &'static str = "round-1";

/// The claim of the store.
pub const STORE_CLAIM_FILE: &'static str = "projection-receipts.claim";

/// The claim of a store that is being initialised.
pub const STORE_INIT_FILE: &'static str = "projection-receipts.init";

/// How a name of a pending cleanup ends.
pub const PENDING_CLEANUP_SUFFIX: &'static str = ".cleanup";

/// How a name of a mutation authority ends.
pub const MUTATION_AUTHORITY_SUFFIX: &'static str = ".mutation-authority";

/// How a name of a mutation lease ends.
pub const MUTATION_AUTHORITY_LEASE_SUFFIX: &'static str = ".mutation-lease";

/// The digits of a digest with an ending.
pub open spec fn evidence_name(digest: Digest, suffix: Seq<char>) -> Seq<char> {
    hex_text(digest.spec_bytes()) + suffix
}

/// Whether a name is the digits of a digest with an ending.
pub open spec fn is_evidence_name(name: Seq<char>, suffix: Seq<char>) -> bool {
    &&& name.len() == 64 + suffix.len()
    &&& is_hex_text(name.take(64), 64)
    &&& name.skip(64) == suffix
}

/// The digits of a digest with an ending are a name.
pub proof fn law_evidence_names_are_recognised(digest: Digest, suffix: Seq<char>)
    ensures
        is_evidence_name(evidence_name(digest, suffix), suffix),
{
    digest.lemma_bytes();
    lemma_hex_round_trip(digest.spec_bytes());
    let name = evidence_name(digest, suffix);
    assert(name.take(64) =~= hex_text(digest.spec_bytes()));
    assert(name.skip(64) =~= suffix);
}

/// Names with the same ending are the same only for the same digest.
pub proof fn law_evidence_names_are_unique(a: Digest, b: Digest, suffix: Seq<char>)
    requires
        evidence_name(a, suffix) == evidence_name(b, suffix),
    ensures
        a == b,
{
    a.lemma_bytes();
    b.lemma_bytes();
    lemma_hex_round_trip(a.spec_bytes());
    lemma_hex_round_trip(b.spec_bytes());
    assert(evidence_name(a, suffix).take(64) =~= hex_text(a.spec_bytes()));
    assert(evidence_name(b, suffix).take(64) =~= hex_text(b.spec_bytes()));
    lemma_hex_injective(a.spec_bytes(), b.spec_bytes());
}

/// The digits of a digest with an ending.
pub fn name_evidence(digest: Digest, suffix: &str) -> (name: String)
    ensures
        name@ == evidence_name(digest, suffix@),
{
    let mut name = digest.to_hex();
    name.append(suffix);
    name
}

/// The name of base bytes.
pub fn base_filename(description: BlobDescription) -> (name: String)
    ensures
        name@ == evidence_name(description.sha256, ".base"@),
{
    name_evidence(description.sha256, ".base")
}

/// The name of an intent.
pub fn intent_filename(intent_id: ProjectionIntentId) -> (name: String)
    ensures
        name@ == evidence_name(intent_id.digest, ".intent"@),
{
    name_evidence(intent_id.digest, ".intent")
}

/// The name of a completion.
pub fn completion_filename(intent_id: ProjectionIntentId) -> (name: String)
    ensures
        name@ == evidence_name(intent_id.digest, ".completion"@),
{
    name_evidence(intent_id.digest, ".completion")
}

/// The name of a mutation authority.
pub fn mutation_authority_filename(intent_id: ProjectionIntentId) -> (name: String)
    ensures
        name@ == evidence_name(intent_id.digest, MUTATION_AUTHORITY_SUFFIX@),
{
    name_evidence(intent_id.digest, MUTATION_AUTHORITY_SUFFIX)
}

/// The name of a mutation lease.
pub fn mutation_authority_lease_filename(intent_id: ProjectionIntentId) -> (name: String)
    ensures
        name@ == evidence_name(intent_id.digest, MUTATION_AUTHORITY_LEASE_SUFFIX@),
{
    name_evidence(intent_id.digest, MUTATION_AUTHORITY_LEASE_SUFFIX)
}

/// The name of an attempt.
pub open spec fn attempt_name(attempt_id: Uuid) -> Seq<char> {
    simple_text(attempt_id.value) + ".attempt"@
}

/// The name of an attempt.
pub fn attempt_filename(attempt_id: Uuid) -> (name: String)
    ensures
        name@ == attempt_name(attempt_id),
{
    let mut name = attempt_id.simple();
    name.append(".attempt");
    name
}

/// The attempt that a name stands for, if it stands for one.
pub open spec fn attempt_of(name: Seq<char>) -> Option<Uuid> {
    if exists|id: Uuid| name == #[trigger] attempt_name(id) {
        Some(choose|id: Uuid| name == #[trigger] attempt_name(id))
    } else {
        None
    }
}

/// Two attempts have the same name only if they are the same.
proof fn lemma_attempt_name_injective(a: Uuid, b: Uuid)
    requires
        attempt_name(a) == attempt_name(b),
    ensures
        a == b,
{
    lemma_simple_text(a.value);
    lemma_simple_text(b.value);
    assert(attempt_name(a).take(32) =~= simple_text(a.value));
    assert(attempt_name(b).take(32) =~= simple_text(b.value));
}

/// The name of an attempt stands for that attempt.
pub proof fn law_attempt_name_reads_back(attempt_id: Uuid)
    ensures
        attempt_of(attempt_name(attempt_id)) == Some(attempt_id),
{
    let name = attempt_name(attempt_id);
    assert(exists|id: Uuid| name == #[trigger] attempt_name(id));
    let read = choose|id: Uuid| name == #[trigger] attempt_name(id);
    lemma_attempt_name_injective(read, attempt_id);
}

/// The attempt that a name stands for. The name must be that of an attempt.
pub fn parse_attempt_filename(name: &String) -> (parsed: Result<Uuid, ProjectionStoreError>)
    ensures
        parsed == (match attempt_of(name@) {
            Some(id) => Ok(id),
            None => Err(ProjectionStoreError::MalformedEvidenceName(*name)),
        }),
{
    let chars = chars_of(name.as_str());
    proof {
        reveal_strlit(".attempt");
        assert forall|id: Uuid| name@ == #[trigger] attempt_name(id) implies name@.len() == 40
            && is_hex_text(name@.take(32), 32) && name@.skip(32) == ".attempt"@ && name@.take(32)
            == simple_text(id.value) by {
            lemma_simple_text(id.value);
            assert(name@.take(32) =~= simple_text(id.value));
            assert(name@.skip(32) =~= ".attempt"@);
        }
    }
    if chars.len() != 40 {
        return Err(ProjectionStoreError::MalformedEvidenceName(name.clone()));
    }
    let digits = vstd::slice::slice_subrange(chars.as_slice(), 0, 32);
    let ending = string_of(vstd::slice::slice_subrange(chars.as_slice(), 32, 40));
    assert(digits@ =~= name@.take(32));
    assert(ending@ =~= name@.skip(32));
    if !same_text(ending.as_str(), ".attempt") || !check_hex_text(digits, 32) {
        return Err(ProjectionStoreError::MalformedEvidenceName(name.clone()));
    }
    let text = string_of(digits);
    match Uuid::parse_str(text.as_str()) {
        Some(id) => {
            proof {
                lemma_simple_text_of(name@.take(32));
                assert(name@ =~= attempt_name(id));
                law_attempt_name_reads_back(id);
            }
            Ok(id)
        },
        None => Err(ProjectionStoreError::MalformedEvidenceName(name.clone())),
    }
}

/// Checks that a name is the digits of a digest with an ending.
pub fn require_canonical_evidence_name(name: &String, suffix: &'static str) -> (checked: Result<
    (),
    ProjectionStoreError,
>)
    ensures
        checked == (if is_evidence_name(name@, suffix@) {
            Ok(())
        } else {
            Err(ProjectionStoreError::MalformedEvidenceName(*name))
        }),
{
    let chars = chars_of(name.as_str());
    let ending = chars_of(suffix);
    if chars.len() < 64 || chars.len() - 64 != ending.len() {
        return Err(ProjectionStoreError::MalformedEvidenceName(name.clone()));
    }
    let digits = vstd::slice::slice_subrange(chars.as_slice(), 0, 64);
    let rest = string_of(vstd::slice::slice_subrange(chars.as_slice(), 64, chars.len()));
    assert(digits@ =~= name@.take(64));
    assert(rest@ =~= name@.skip(64));
    if !same_text(rest.as_str(), suffix) || !check_hex_text(digits, 64) {
        return Err(ProjectionStoreError::MalformedEvidenceName(name.clone()));
    }
    Ok(())
}

/// The name of a file that is being written.
pub open spec fn temp_name(value: u128) -> Seq<char> {
    ".tmp-"@ + hyphenated_text(value)
}

/// Whether a name is that of a file that is being written.
pub open spec fn names_temp(name: Seq<char>) -> bool {
    exists|value: u128| name == #[trigger] temp_name(value)
}

/// Whether a name is that of a file that is being written.
pub fn is_temp_name(name: &str) -> (temporary: bool)
    ensures
        temporary == names_temp(name@),
{
    let chars = chars_of(name);
    proof {
        reveal_strlit(".tmp-");
        assert forall|value: u128| name@ == #[trigger] temp_name(value) implies name@.len() == 41
            && name@.take(5) == ".tmp-"@ && name@.skip(5) == hyphenated_text(value) by {
            lemma_simple_text(value);
            assert(hyphenated_text(value).len() == 36);
            assert(name@.take(5) =~= ".tmp-"@);
            assert(name@.skip(5) =~= hyphenated_text(value));
        }
    }
    if chars.len() != 41 {
        return false;
    }
    let start = string_of(vstd::slice::slice_subrange(chars.as_slice(), 0, 5));
    let rest = string_of(vstd::slice::slice_subrange(chars.as_slice(), 5, 41));
    assert(start@ =~= name@.take(5));
    assert(rest@ =~= name@.skip(5));
    if !same_text(start.as_str(), ".tmp-") {
        return false;
    }
    match Uuid::parse_str(rest.as_str()) {
        None => false,
        Some(id) => {
            let canonical = same_text(rest.as_str(), id.hyphenated().as_str());
            proof {
                if canonical {
                    assert(name@ =~= temp_name(id.value));
                }
            }
            canonical
        },
    }
}

/// Whether a text starts with another.
pub open spec fn begins_with(text: Seq<char>, start: Seq<char>) -> bool {
    text.len() >= start.len() && text.take(start.len() as int) == start
}

/// Whether a text starts with another.
pub fn starts_with_text(text: &str, start: &str) -> (starts: bool)
    ensures
        starts == begins_with(text@, start@),
{
    let chars = chars_of(text);
    let wanted = chars_of(start);
    if chars.len() < wanted.len() {
        return false;
    }
    let head = string_of(vstd::slice::slice_subrange(chars.as_slice(), 0, wanted.len()));
    assert(head@ =~= text@.take(start@.len() as int));
    same_text(head.as_str(), start)
}

/// Whether a text ends with another.
pub open spec fn finishes_with(text: Seq<char>, end: Seq<char>) -> bool {
    text.len() >= end.len() && text.skip(text.len() - end.len()) == end
}

/// Whether a text ends with another.
pub fn ends_with_text(text: &str, end: &str) -> (ends: bool)
    ensures
        ends == finishes_with(text@, end@),
{
    let chars = chars_of(text);
    let wanted = chars_of(end);
    if chars.len() < wanted.len() {
        return false;
    }
    let tail = string_of(
        vstd::slice::slice_subrange(chars.as_slice(), chars.len() - wanted.len(), chars.len()),
    );
    assert(tail@ =~= text@.skip(text@.len() - end@.len()));
    same_text(tail.as_str(), end)
}

} // verus!
