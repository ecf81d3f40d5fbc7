//! What comes before what.

use vstd::prelude::*;

use crate::annotation::{ProjectionClaimEvidence, ProjectionClaimParticipant};
use crate::bytes::{be_bytes, be_value, lemma_be_bytes_len, lemma_pow256_widths, pow256};
use crate::claim::precheck;
use crate::cleanup_run::record_before;
use crate::evidence::LocalProjectionEvidenceRecord;
use crate::hash::Digest;
use crate::manifest::{
    claims_ascend, lemma_sorted_claims, sorted_claims, ManifestedProjectionIntentWire,
};
use crate::manifest_set::intent_before;
use crate::name_set::name_before;
use crate::order::{
    bytes_before, bytes_differ_at, lemma_bytes_asymmetric, words_before, words_differ_at,
};
use crate::store_error::ProjectionStoreError;

verus! {

/// Whether bytes come first: they are smaller at the first place where they differ, or end there.
pub open spec fn comes_first(a: Seq<u8>, b: Seq<u8>) -> bool {
    exists|k: int|
        0 <= k <= a.len() && k < b.len() && (#[trigger] a.take(k)) == b.take(k) && (k == a.len()
            || a[k] < b[k])
}

/// Bytes are in order by the first place where they differ.
pub proof fn law_bytes_are_ordered_by_their_first_difference(a: Seq<u8>, b: Seq<u8>)
    ensures
        bytes_before(a, b) <==> comes_first(a, b),
{
    if bytes_before(a, b) {
        let k = choose|k: int| bytes_differ_at(a, b, k);
        assert(a.take(k) =~= b.take(k));
    }
    if comes_first(a, b) {
        let k = choose|k: int|
            0 <= k <= a.len() && k < b.len() && (#[trigger] a.take(k)) == b.take(k) && (k
                == a.len() || a[k] < b[k]);
        assert forall|j: int| 0 <= j < k implies #[trigger] a[j] == b[j] by {
            assert(a.take(k)[j] == b.take(k)[j]);
        }
        assert(bytes_differ_at(a, b, k));
    }
}

/// Positions are in order by the first number where they differ; a block comes before what is below
/// it.
pub proof fn law_positions_are_ordered_by_their_first_difference(a: Seq<u32>, b: Seq<u32>)
    ensures
        words_before(a, b) <==> exists|k: int|
            0 <= k <= a.len() && k < b.len() && (#[trigger] a.take(k)) == b.take(k) && (k
                == a.len() || a[k] < b[k]),
{
    if words_before(a, b) {
        let k = choose|k: int| words_differ_at(a, b, k);
        assert(a.take(k) =~= b.take(k));
    }
    if exists|k: int|
        0 <= k <= a.len() && k < b.len() && (#[trigger] a.take(k)) == b.take(k) && (k == a.len()
            || a[k] < b[k]) {
        let k = choose|k: int|
            0 <= k <= a.len() && k < b.len() && (#[trigger] a.take(k)) == b.take(k) && (k
                == a.len() || a[k] < b[k]);
        assert forall|j: int| 0 <= j < k implies #[trigger] a[j] == b[j] by {
            assert(a.take(k)[j] == b.take(k)[j]);
        }
        assert(words_differ_at(a, b, k));
    }
}

/// Names are in order by the bytes of their text.
pub proof fn law_names_are_ordered_by_their_bytes(a: Seq<char>, b: Seq<char>)
    ensures
        name_before(a, b) <==> comes_first(
            vstd::utf8::encode_utf8(a),
            vstd::utf8::encode_utf8(b),
        ),
{
    law_bytes_are_ordered_by_their_first_difference(
        vstd::utf8::encode_utf8(a),
        vstd::utf8::encode_utf8(b),
    );
}

/// A smaller number is written with smaller bytes.
proof fn lemma_numbers_in_order(a: nat, b: nat, n: nat)
    requires
        a < b < pow256(n),
    ensures
        bytes_before(be_bytes(a, n), be_bytes(b, n)),
    decreases n,
{
    lemma_be_bytes_len(a, n);
    lemma_be_bytes_len(b, n);
    if n > 0 {
        let m = (n - 1) as nat;
        let (x, y) = (be_bytes(a / 256, m), be_bytes(b / 256, m));
        lemma_be_bytes_len(a / 256, m);
        lemma_be_bytes_len(b / 256, m);
        let (all_x, all_y) = (be_bytes(a, n), be_bytes(b, n));
        if a / 256 < b / 256 {
            assert(pow256(n) == 256 * pow256(m));
            assert(b / 256 < pow256(m));
            lemma_numbers_in_order(a / 256, b / 256, m);
            let k = choose|k: int| bytes_differ_at(x, y, k);
            assert(k < m);
            assert forall|j: int| 0 <= j < k implies #[trigger] all_x[j] == all_y[j] by {
                assert(x[j] == y[j]);
            }
            assert(bytes_differ_at(all_x, all_y, k));
        } else {
            assert(a / 256 == b / 256 && a % 256 < b % 256);
            assert forall|j: int| 0 <= j < m implies #[trigger] all_x[j] == all_y[j] by {
                assert(all_x[j] == x[j] && all_y[j] == y[j]);
            }
            assert(all_x[m as int] == (a % 256) as u8 && all_y[m as int] == (b % 256) as u8);
            assert(bytes_differ_at(all_x, all_y, m as int));
        }
    }
}

/// A digest that comes first is written with smaller bytes.
proof fn lemma_digests_in_order(a: Digest, b: Digest)
    requires
        a.spec_before(b),
    ensures
        bytes_before(a.spec_bytes(), b.spec_bytes()),
{
    lemma_pow256_widths();
    let (x, y) = (a.spec_bytes(), b.spec_bytes());
    a.lemma_bytes();
    b.lemma_bytes();
    lemma_be_bytes_len(a.high as nat, 16);
    lemma_be_bytes_len(b.high as nat, 16);
    lemma_be_bytes_len(a.low as nat, 16);
    lemma_be_bytes_len(b.low as nat, 16);
    if a.high < b.high {
        lemma_numbers_in_order(a.high as nat, b.high as nat, 16);
        let (p, q) = (be_bytes(a.high as nat, 16), be_bytes(b.high as nat, 16));
        let k = choose|k: int| bytes_differ_at(p, q, k);
        assert forall|j: int| 0 <= j < k implies #[trigger] x[j] == y[j] by {
            assert(p[j] == q[j]);
        }
        assert(bytes_differ_at(x, y, k));
    } else {
        lemma_numbers_in_order(a.low as nat, b.low as nat, 16);
        let (p, q) = (be_bytes(a.low as nat, 16), be_bytes(b.low as nat, 16));
        let k = choose|k: int| bytes_differ_at(p, q, k);
        assert forall|j: int| 0 <= j < 16 + k implies #[trigger] x[j] == y[j] by {
            if j >= 16 {
                assert(p[j - 16] == q[j - 16]);
            }
        }
        assert(bytes_differ_at(x, y, 16 + k));
    }
}

/// Digests are in order by their bytes.
pub proof fn law_digests_are_ordered_by_their_bytes(a: Digest, b: Digest)
    ensures
        a.spec_before(b) <==> comes_first(a.spec_bytes(), b.spec_bytes()),
{
    law_bytes_are_ordered_by_their_first_difference(a.spec_bytes(), b.spec_bytes());
    if a.spec_before(b) {
        lemma_digests_in_order(a, b);
    } else if comes_first(a.spec_bytes(), b.spec_bytes()) {
        if b.spec_before(a) {
            lemma_digests_in_order(b, a);
            lemma_bytes_asymmetric(a.spec_bytes(), b.spec_bytes());
        } else {
            lemma_bytes_asymmetric(a.spec_bytes(), b.spec_bytes());
        }
    }
}

/// Displaced files are in order by the digests of their intents, and by their attempts where the
/// intent is the same.
pub proof fn law_records_are_ordered_by_intent_and_attempt(
    a: LocalProjectionEvidenceRecord,
    b: LocalProjectionEvidenceRecord,
)
    ensures
        record_before(a, b) <==> {
            ||| comes_first(a.intent_id.digest.spec_bytes(), b.intent_id.digest.spec_bytes())
            ||| a.intent_id == b.intent_id && a.attempt_id.value < b.attempt_id.value
        },
{
    law_digests_are_ordered_by_their_bytes(a.intent_id.digest, b.intent_id.digest);
}

/// The intents of a batch are in order by endpoint, then by page, then by the bytes of the path.
pub proof fn law_intents_are_ordered_by_endpoint_page_and_path(
    a: ManifestedProjectionIntentWire,
    b: ManifestedProjectionIntentWire,
)
    ensures
        a.source_endpoint_id.uuid.value < b.source_endpoint_id.uuid.value ==> intent_before(a, b)
            && !intent_before(b, a),
        a.source_endpoint_id == b.source_endpoint_id && a.page_id.uuid.value
            < b.page_id.uuid.value ==> intent_before(a, b) && !intent_before(b, a),
        a.source_endpoint_id == b.source_endpoint_id && a.page_id == b.page_id ==> (intent_before(
            a,
            b,
        ) <==> comes_first(
            vstd::utf8::encode_utf8(a.path.text@),
            vstd::utf8::encode_utf8(b.path.text@),
        )),
{
    law_bytes_are_ordered_by_their_first_difference(
        vstd::utf8::encode_utf8(a.path.text@),
        vstd::utf8::encode_utf8(b.path.text@),
    );
}

/// The participants of a claim are in order by block, and by document where the block is the same.
pub proof fn law_participants_are_ordered_by_block(
    a: ProjectionClaimParticipant,
    b: ProjectionClaimParticipant,
)
    ensures
        a.spec_before(b) <==> {
            ||| a.block_id.uuid.value < b.block_id.uuid.value
            ||| a.block_id == b.block_id && a.home_document_id.uuid.value
                < b.home_document_id.uuid.value
        },
{
}

/// Putting claims in order keeps each of them and leaves them ascending by identity.
pub proof fn law_claims_are_put_in_order(claims: Seq<ProjectionClaimEvidence>)
    ensures
        sorted_claims(claims).to_multiset() == claims.to_multiset(),
        forall|i: int, j: int|
            0 <= i < j < sorted_claims(claims).len() ==> (
            #[trigger] sorted_claims(claims)[i]).logseq_uuid.uuid.value <= (
            #[trigger] sorted_claims(claims)[j]).logseq_uuid.uuid.value,
{
    lemma_sorted_claims(claims);
    assert(claims_ascend(sorted_claims(claims)));
}

/// Whether a claim starts as one of the given version does.
pub open spec fn starts_as_claim(bytes: Seq<u8>, digit: u8) -> bool {
    bytes.take(8) == seq![0x54u8, 0x49, 0x4e, 0x45, 0x50, 0x52, digit, 0]
}

/// A claim is looked at only where it has the current start, version and length. One of the three
/// versions before, or with an older number, asks for an upgrade; one with a newer number is of an
/// unknown version; everything else is malformed.
pub proof fn law_only_current_claims_are_read(bytes: Seq<u8>)
    ensures
        ({
            let version = be_value(bytes.subrange(8, 12)) as u32;
            let older = starts_as_claim(bytes, 0x33) || starts_as_claim(bytes, 0x34)
                || starts_as_claim(bytes, 0x35);
            &&& precheck(bytes) is Ok <==> bytes.len() == 285 && starts_as_claim(bytes, 0x36)
                && version == 6
            &&& bytes.len() < 12 ==> precheck(bytes) is Err
                && precheck(bytes)->Err_0 is MalformedStoreClaim
            &&& bytes.len() >= 12 && older ==> precheck(bytes) is Err && precheck(bytes)->Err_0
                == (ProjectionStoreError::UpgradeRequired { found: version, current: 6 })
            &&& bytes.len() >= 12 && starts_as_claim(bytes, 0x36) && version < 6 ==> precheck(
                bytes,
            ) is Err && precheck(bytes)->Err_0 == (ProjectionStoreError::UpgradeRequired {
                found: version,
                current: 6,
            })
            &&& bytes.len() >= 12 && starts_as_claim(bytes, 0x36) && version > 6 ==> precheck(
                bytes,
            ) is Err && precheck(bytes)->Err_0 == ProjectionStoreError::UnknownStoreVersion(
                version,
            )
            &&& bytes.len() >= 12 && !older && !starts_as_claim(bytes, 0x36) ==> precheck(bytes)
                is Err && precheck(bytes)->Err_0 is MalformedStoreClaim
        }),
{
    let magic = bytes.take(8);
    if crate::claim::is_prior_magic(magic) {
        let digit = choose|digit: u8|
            0x33u8 <= digit <= 0x35u8 && magic == #[trigger] crate::claim::prior_magic(digit);
        assert(magic == crate::claim::prior_magic(digit));
        assert(starts_as_claim(bytes, digit));
        assert(digit == 0x33 || digit == 0x34 || digit == 0x35);
    }
    if starts_as_claim(bytes, 0x33) {
        assert(magic == crate::claim::prior_magic(0x33));
    }
    if starts_as_claim(bytes, 0x34) {
        assert(magic == crate::claim::prior_magic(0x34));
    }
    if starts_as_claim(bytes, 0x35) {
        assert(magic == crate::claim::prior_magic(0x35));
    }
    if starts_as_claim(bytes, 0x36) {
        assert(magic[6] == 0x36);
        assert(forall|digit: u8| #[trigger] crate::claim::prior_magic(digit)[6] == digit);
    }
}

} // verus!
