//! What holds of the snapshots of a store's names, of what retired intents leave behind, and of the
//! directory of the cleanup rounds.

use vstd::prelude::*;

use crate::attempts::EntryKind;
use crate::catalog::ProjectionCatalogEntry;
use crate::claim::{precheck, probe_verdict, ClaimProbe};
use crate::editor::patched_or_rendered;
use crate::error::ProjectionError;
use crate::ids::ProjectionIntentId;
use crate::incremental::{incremental_projection, BlockParses};
use crate::intent::ProjectionIntent;
use crate::names::{is_evidence_name, names_temp};
use crate::page::{optional_text, same_projection_identity, MaterializedPage};
use crate::plan::{
    annotated_layout, rendered_with_layout, PageRendering, RenderedView, SourceBase,
};
use crate::rounds::{root_admitted, root_scan, root_verdict};
use crate::store::ProjectionReceiptStore;
use crate::store_error::{storage_error, ProjectionStoreError, StoreFault};
use crate::summary::{
    delta_intent, delta_intents, delta_row, delta_rows, evidence_names, is_residue, name_admitted,
    names_read, DeltaIntent, DeltaRow, NameScan, NamedEntry, OwnIntentResidue,
};
use crate::text::hex_text;

verus! {

/// Whether an entry is a receipt that counts, under the given name: a file, no unfinished one, and
/// not that of a retired intent.
pub open spec fn counts_as(
    retired: Seq<ProjectionIntentId>,
    suffix: Seq<char>,
    entry: NamedEntry,
    name: Seq<char>,
) -> bool {
    &&& entry.name is Some
    &&& (entry.name->0)@ == name
    &&& entry.kind == EntryKind::File
    &&& !names_temp(name)
    &&& forall|i: int|
        0 <= i < retired.len() ==> name != hex_text(
            (#[trigger] retired[i]).digest.spec_bytes(),
        ) + suffix
}

/// Whether a name is sixty-four hexadecimal digits and a suffix.
pub open spec fn is_digest_name(name: Seq<char>, suffix: Seq<char>) -> bool {
    &&& name.len() == 64 + suffix.len()
    &&& name.skip(64) == suffix
    &&& forall|i: int|
        0 <= i < 64 ==> '0' <= #[trigger] name[i] <= '9' || 'a' <= name[i] <= 'f'
}

/// Names that were read are those that were there and those of the entries that count.
proof fn lemma_names_read(
    retired: Seq<ProjectionIntentId>,
    suffix: Seq<char>,
    kind: &'static str,
    names: Set<Seq<char>>,
    entries: Seq<NamedEntry>,
    n: nat,
)
    requires
        n <= entries.len(),
        names_read(retired, suffix, kind, names, entries, n) is Ok,
    ensures
        forall|name: Seq<char>| #[trigger]
            names_read(retired, suffix, kind, names, entries, n)->Ok_0.names.contains(name)
                <==> names.contains(name) || exists|i: int|
                0 <= i < n && counts_as(retired, suffix, #[trigger] entries[i], name),
        forall|i: int, name: Seq<char>|
            0 <= i < n && #[trigger] counts_as(retired, suffix, entries[i], name)
                ==> is_digest_name(name, suffix) && !names.contains(name),
    decreases n,
{
    if n > 0 {
        lemma_names_read(retired, suffix, kind, names, entries, (n - 1) as nat);
        let before = names_read(retired, suffix, kind, names, entries, (n - 1) as nat)->Ok_0;
        let after = names_read(retired, suffix, kind, names, entries, n)->Ok_0;
        let entry = entries[n - 1];
        let own = (entry.name->0)@;
        assert(name_admitted(retired, suffix, kind, before, entry) == Ok::<
            NameScan,
            ProjectionStoreError,
        >(after));
        assert(counts_as(retired, suffix, entry, own) <==> after.names != before.names || (
        entry.kind == EntryKind::File && !names_temp(own)
            && !crate::catalog::is_retired_name(retired, own, suffix))) by {
            if crate::catalog::is_retired_name(retired, own, suffix) {
                let i = choose|i: int|
                    0 <= i < retired.len() && own == crate::names::evidence_name(
                        (#[trigger] retired[i]).digest,
                        suffix,
                    );
                assert(own == hex_text(retired[i].digest.spec_bytes()) + suffix);
            } else {
                assert forall|i: int| 0 <= i < retired.len() implies own != hex_text(
                    (#[trigger] retired[i]).digest.spec_bytes(),
                ) + suffix by {
                    assert(own != crate::names::evidence_name(retired[i].digest, suffix));
                }
            }
        }
        if counts_as(retired, suffix, entry, own) {
            assert(is_evidence_name(own, suffix));
            assert forall|i: int| 0 <= i < 64 implies '0' <= #[trigger] own[i] <= '9' || 'a'
                <= own[i] <= 'f' by {
                assert(own.take(64)[i] == own[i]);
            }
            assert(is_digest_name(own, suffix));
        }
        assert forall|name: Seq<char>| #[trigger] after.names.contains(name) <==> names.contains(
            name,
        ) || exists|i: int|
            0 <= i < n && counts_as(retired, suffix, #[trigger] entries[i], name) by {
            if after.names.contains(name) && !before.names.contains(name) {
                assert(name == own);
                assert(counts_as(retired, suffix, entries[n - 1], name));
            }
            if exists|i: int|
                0 <= i < n && counts_as(retired, suffix, #[trigger] entries[i], name) {
                let i = choose|i: int|
                    0 <= i < n && counts_as(retired, suffix, #[trigger] entries[i], name);
                if i < n - 1 {
                    assert(before.names.contains(name));
                } else {
                    assert(name == own);
                }
            }
        }
        assert forall|i: int, name: Seq<char>|
            0 <= i < n && #[trigger] counts_as(retired, suffix, entries[i], name) implies
            is_digest_name(name, suffix) && !names.contains(name) by {
            if i == n - 1 {
                assert(name == own);
                assert(!before.names.contains(name));
            }
        }
    }
}

/// A snapshot of a store's names holds exactly the completions and intents that count, each under a
/// digest: files that are finished and not of retired intents.
pub proof fn law_snapshot_names_what_counts(
    retired: Seq<ProjectionIntentId>,
    completions: Seq<NamedEntry>,
    intents: Seq<NamedEntry>,
    name: Seq<char>,
)
    requires
        evidence_names(retired, completions, intents) is Ok,
    ensures
        evidence_names(retired, completions, intents)->Ok_0.contains(name) <==> (exists|i: int|
            0 <= i < completions.len() && counts_as(
                retired,
                ".completion"@,
                #[trigger] completions[i],
                name,
            )) || (exists|i: int|
            0 <= i < intents.len() && counts_as(
                retired,
                ".intent"@,
                #[trigger] intents[i],
                name,
            )),
        evidence_names(retired, completions, intents)->Ok_0.contains(name) ==> is_digest_name(
            name,
            ".completion"@,
        ) || is_digest_name(name, ".intent"@),
{
    let none = Set::<Seq<char>>::empty();
    lemma_names_read(
        retired,
        ".completion"@,
        "projection completion rows",
        none,
        completions,
        completions.len(),
    );
    let first = names_read(
        retired,
        ".completion"@,
        "projection completion rows",
        none,
        completions,
        completions.len(),
    )->Ok_0.names;
    lemma_names_read(
        retired,
        ".intent"@,
        "projection intent rows",
        first,
        intents,
        intents.len(),
    );
}

/// What a snapshot adds is read in the order it was asked for, one for one.
pub proof fn law_added_rows_are_read_one_for_one(
    store: ProjectionReceiptStore,
    intents: Seq<DeltaIntent>,
    rows: Seq<DeltaRow>,
    n: nat,
    m: nat,
)
    requires
        n <= intents.len(),
        m <= rows.len(),
    ensures
        delta_intents(store, intents, n) is Ok ==> delta_intents(store, intents, n)->Ok_0.len()
            == n && forall|k: int|
            0 <= k < n ==> delta_intent(store, #[trigger] intents[k]) == Ok::<
                ProjectionIntent,
                ProjectionStoreError,
            >(delta_intents(store, intents, n)->Ok_0[k]),
        delta_rows(store, rows, m) is Ok ==> delta_rows(store, rows, m)->Ok_0.len() == m
            && forall|k: int|
            0 <= k < m ==> delta_row(store, #[trigger] rows[k]) == Ok::<
                ProjectionCatalogEntry,
                ProjectionStoreError,
            >(delta_rows(store, rows, m)->Ok_0[k]),
    decreases n + m,
{
    if n > 0 {
        law_added_rows_are_read_one_for_one(store, intents, rows, (n - 1) as nat, m);
    } else if m > 0 {
        law_added_rows_are_read_one_for_one(store, intents, rows, n, (m - 1) as nat);
    }
    if n > 0 && m > 0 {
        law_added_rows_are_read_one_for_one(store, intents, rows, n, (m - 1) as nat);
    }
}

/// Whether a name starts with the digest of one of the intents and a dot.
pub open spec fn is_marker_of(own: Seq<OwnIntentResidue>, name: Seq<char>) -> bool {
    exists|i: int|
        0 <= i < own.len() && name.len() >= 65 && name.take(65) == hex_text(
            (#[trigger] own[i]).intent_id.digest.spec_bytes(),
        ) + "."@
}

/// What a retired intent leaves behind is reported under its place in the store: its intent and
/// completion, the directories of its attempts and evidence, the record and lease of its authority;
/// and its markers in either round. Nothing else is.
pub proof fn law_residue_is_what_retired_intents_left(
    own: Seq<OwnIntentResidue>,
    round_0: Seq<Option<String>>,
    round_1: Seq<Option<String>>,
    path: Seq<char>,
)
    ensures
        is_residue(own, round_0, round_1, path) <==> {
            ||| exists|i: int|
                0 <= i < own.len() && {
                    let digits = hex_text((#[trigger] own[i]).intent_id.digest.spec_bytes());
                    ||| own[i].intent && path == "intents"@ + "/"@ + (digits + ".intent"@)
                    ||| own[i].completion && path == "completions"@ + "/"@ + (digits
                        + ".completion"@)
                    ||| own[i].attempts && path == "attempts"@ + "/"@ + (digits + "/"@)
                    ||| own[i].forensics && path == "forensics"@ + "/"@ + (digits + "/"@)
                    ||| own[i].authority && path == digits + ".mutation-authority"@
                    ||| own[i].lease && path == digits + ".mutation-lease"@
                }
            ||| exists|k: int|
                0 <= k < round_0.len() && (#[trigger] round_0[k]) is Some && is_marker_of(
                    own,
                    (round_0[k]->0)@,
                ) && path == "forensics"@ + "/"@ + "pending-cleanup"@ + "/"@ + "round-0"@ + "/"@ + (
                round_0[k]->0)@
            ||| exists|k: int|
                0 <= k < round_1.len() && (#[trigger] round_1[k]) is Some && is_marker_of(
                    own,
                    (round_1[k]->0)@,
                ) && path == "forensics"@ + "/"@ + "pending-cleanup"@ + "/"@ + "round-1"@ + "/"@ + (
                round_1[k]->0)@
        },
{
    assert forall|name: Seq<char>| #[trigger] is_marker_of(own, name)
        <==> crate::summary::is_own_marker(own, name) by {
        lemma_marker_of(own, name);
    }
    if exists|i: int| 0 <= i < own.len() && crate::summary::is_residue_of(#[trigger] own[i], path) {
        let i = choose|i: int|
            0 <= i < own.len() && crate::summary::is_residue_of(#[trigger] own[i], path);
        assert(crate::summary::is_residue_of(own[i], path));
    }
}

/// A name is that of a marker of the intents exactly where it starts with the digest of one and a
/// dot.
proof fn lemma_marker_of(own: Seq<OwnIntentResidue>, name: Seq<char>)
    ensures
        is_marker_of(own, name) <==> crate::summary::is_own_marker(own, name),
{
    reveal_strlit(".");
    assert forall|i: int| 0 <= i < own.len() implies (
    #[trigger] own[i]).intent_id.digest.spec_bytes().len() == 32 by {
        own[i].intent_id.digest.lemma_bytes();
    }
    if is_marker_of(own, name) {
        let i = choose|i: int|
            0 <= i < own.len() && name.len() >= 65 && name.take(65) == hex_text(
                (#[trigger] own[i]).intent_id.digest.spec_bytes(),
            ) + "."@;
        assert(own[i].intent_id.digest.spec_bytes().len() == 32);
    }
    if crate::summary::is_own_marker(own, name) {
        let i = choose|i: int|
            0 <= i < own.len() && crate::names::begins_with(
                name,
                crate::names::evidence_name((#[trigger] own[i]).intent_id.digest, "."@),
            );
        assert(own[i].intent_id.digest.spec_bytes().len() == 32);
    }
}

/// Whether an entry may be in the directory of the cleanup rounds: an unfinished file, the state of
/// the rounds, as a file, or one of the two rounds, as a directory.
pub open spec fn may_be_in_round_root(entry: NamedEntry) -> bool {
    &&& entry.name is Some
    &&& {
        ||| names_temp((entry.name->0)@) && entry.kind == EntryKind::File
        ||| (entry.name->0)@ == "round-state"@ && entry.kind == EntryKind::File
        ||| (entry.name->0)@ == "round-0"@ && entry.kind == EntryKind::Directory
        ||| (entry.name->0)@ == "round-1"@ && entry.kind == EntryKind::Directory
    }
}

/// Whether an entry has a name.
pub open spec fn is_named(entry: NamedEntry, name: Seq<char>) -> bool {
    entry.name is Some && (entry.name->0)@ == name && !names_temp(name)
}

/// What a scan of the directory of the rounds without a fault has seen.
proof fn lemma_root_scan(entries: Seq<NamedEntry>, n: nat)
    requires
        n <= entries.len(),
        root_scan(entries, n).fault is None,
    ensures
        root_scan(entries, n).count == n,
        n <= 4,
        forall|k: int| 0 <= k < n ==> may_be_in_round_root(#[trigger] entries[k]),
        root_scan(entries, n).state <==> exists|k: int|
            0 <= k < n && is_named(#[trigger] entries[k], "round-state"@),
        root_scan(entries, n).first <==> exists|k: int|
            0 <= k < n && is_named(#[trigger] entries[k], "round-0"@),
        root_scan(entries, n).second <==> exists|k: int|
            0 <= k < n && is_named(#[trigger] entries[k], "round-1"@),
        forall|name: String|
            root_scan(entries, n).temporary.contains(name) ==> names_temp(name@) && exists|k: int|
                0 <= k < n && (#[trigger] entries[k]).name == Some(name),
        forall|k: int|
            0 <= k < n && names_temp(((#[trigger] entries[k]).name->0)@) ==> root_scan(
                entries,
                n,
            ).temporary.contains(entries[k].name->0),
    decreases n,
{
    reveal_strlit("round-state");
    reveal_strlit("round-0");
    reveal_strlit("round-1");
    if n > 0 {
        let before = root_scan(entries, (n - 1) as nat);
        let after = root_scan(entries, n);
        let entry = entries[n - 1];
        assert(after == root_admitted(before, entry));
        assert(before.fault is None);
        lemma_root_scan(entries, (n - 1) as nat);
        assert("round-state"@[6] != "round-0"@[6] && "round-0"@[6] != "round-1"@[6]
            && "round-state"@[6] != "round-1"@[6]);
        assert(may_be_in_round_root(entry));
        let name = entry.name->0;
        if names_temp(name@) {
            assert(after.temporary == before.temporary.push(name));
            assert(after.temporary[before.temporary.len() as int] == name);
            assert forall|k: int|
                0 <= k < n && names_temp(((#[trigger] entries[k]).name->0)@) implies
                after.temporary.contains(entries[k].name->0) by {
                if k < n - 1 {
                    let at = before.temporary.index_of(entries[k].name->0);
                    assert(after.temporary[at] == entries[k].name->0);
                }
            }
            assert forall|one: String| after.temporary.contains(one) implies names_temp(one@)
                && exists|k: int| 0 <= k < n && (#[trigger] entries[k]).name == Some(one) by {
                let at = after.temporary.index_of(one);
                if at < before.temporary.len() {
                    assert(before.temporary[at] == one);
                    assert(before.temporary.contains(one));
                } else {
                    assert(entries[n - 1].name == Some(one));
                }
            }
        }
        if exists|k: int| 0 <= k < n && is_named(#[trigger] entries[k], "round-state"@) {
            let k = choose|k: int| 0 <= k < n && is_named(#[trigger] entries[k], "round-state"@);
            assert(is_named(entries[k], "round-state"@));
        }
        if exists|k: int| 0 <= k < n && is_named(#[trigger] entries[k], "round-0"@) {
            let k = choose|k: int| 0 <= k < n && is_named(#[trigger] entries[k], "round-0"@);
            assert(is_named(entries[k], "round-0"@));
        }
        if exists|k: int| 0 <= k < n && is_named(#[trigger] entries[k], "round-1"@) {
            let k = choose|k: int| 0 <= k < n && is_named(#[trigger] entries[k], "round-1"@);
            assert(is_named(entries[k], "round-1"@));
        }
        assert(after.state ==> before.state || is_named(entries[n - 1], "round-state"@));
        assert(after.first ==> before.first || is_named(entries[n - 1], "round-0"@));
        assert(after.second ==> before.second || is_named(entries[n - 1], "round-1"@));
    }
}

/// The directory of the cleanup rounds is accepted only where it holds at most four entries, each of
/// which may be there; with a state it must hold both rounds, and where it is still to get one it
/// must not have one. The unfinished files in it are exactly those that are reported.
pub proof fn law_round_directory_holds_the_rounds(
    entries: Seq<NamedEntry>,
    require_state: bool,
)
    requires
        root_verdict(root_scan(entries, entries.len()), require_state) is Ok,
    ensures
        entries.len() <= 4,
        forall|k: int| 0 <= k < entries.len() ==> may_be_in_round_root(#[trigger] entries[k]),
        require_state ==> (exists|k: int|
            0 <= k < entries.len() && is_named(#[trigger] entries[k], "round-state"@)) && (exists|
            k: int,
        |
            0 <= k < entries.len() && is_named(#[trigger] entries[k], "round-0"@)) && (exists|
            k: int,
        |
            0 <= k < entries.len() && is_named(#[trigger] entries[k], "round-1"@)),
        !require_state ==> forall|k: int|
            0 <= k < entries.len() ==> !is_named(#[trigger] entries[k], "round-state"@),
        forall|k: int|
            0 <= k < entries.len() && names_temp(((#[trigger] entries[k]).name->0)@) ==> root_scan(
                entries,
                entries.len(),
            ).temporary.contains(entries[k].name->0),
        forall|name: String|
            root_scan(entries, entries.len()).temporary.contains(name) ==> names_temp(name@)
                && exists|k: int|
                0 <= k < entries.len() && (#[trigger] entries[k]).name == Some(name),
{
    lemma_root_scan(entries, entries.len());
}

/// A store may be opened, as far as looking at it shows, where it is not there, is empty without a
/// claim, or has a claim of the current form; in every other case it is refused.
pub proof fn law_only_sound_stores_are_opened(probe: ClaimProbe)
    ensures
        probe_verdict(probe) is Ok <==> {
            ||| probe is NoStore
            ||| probe is NoClaim && probe->NoClaim_0 is Ok && !probe->NoClaim_0->Ok_0
            ||| probe is Claim && probe->Claim_0 is Ok && precheck(probe->Claim_0->Ok_0@) is Ok
        },
        probe is NoClaim && probe->NoClaim_0 is Ok && probe->NoClaim_0->Ok_0
            ==> probe_verdict(probe)->Err_0 is ClaimlessNonemptyStore,
        probe is NotAFile ==> probe_verdict(probe)->Err_0 is MalformedStoreClaim,
{
}

/// A fault of the storage is handed on as it is, but that data which is not valid counts as a failed
/// operation.
pub proof fn law_storage_faults_are_handed_on(fault: StoreFault)
    ensures
        fault is Io && fault->Io_0.kind is InvalidData ==> storage_error(fault)
            == ProjectionStoreError::Io(fault->Io_0),
        !(fault is Io && fault->Io_0.kind is InvalidData) ==> storage_error(fault)
            == ProjectionStoreError::Store(fault),
{
}

/// Two pages count as the same for projection exactly where they agree in identity, document, name,
/// path, kind and preamble, and block for block in identity, document, parent, order, written
/// identity, its origin, and text.
pub proof fn law_same_pages_agree_in_everything(left: MaterializedPage, right: MaterializedPage)
    ensures
        same_projection_identity(left, right) <==> {
            &&& left.page_id == right.page_id
            &&& left.home_document_id == right.home_document_id
            &&& left.name@ == right.name@
            &&& left.path.text@ == right.path.text@
            &&& left.kind == right.kind
            &&& optional_text(left.preamble) == optional_text(right.preamble)
            &&& left.blocks@.len() == right.blocks@.len()
            &&& forall|k: int|
                0 <= k < left.blocks@.len() ==> {
                    let (a, b) = (#[trigger] left.blocks@[k], right.blocks@[k]);
                    &&& a.block_id == b.block_id
                    &&& a.home_document_id == b.home_document_id
                    &&& a.parent == b.parent
                    &&& a.order@ == b.order@
                    &&& a.logseq_uuid == b.logseq_uuid
                    &&& a.logseq_identity_origin == b.logseq_identity_origin
                    &&& a.content@ == b.content@
                }
        },
{
    let a = crate::page::block_views(left.blocks@);
    let b = crate::page::block_views(right.blocks@);
    if a == b {
        assert(a.len() == b.len());
        assert forall|k: int| 0 <= k < left.blocks@.len() implies left.blocks@[k]@
            == right.blocks@[k]@ by {
            assert(a[k] == b[k]);
        }
    }
    if left.blocks@.len() == right.blocks@.len() && forall|k: int|
        0 <= k < left.blocks@.len() ==> (#[trigger] left.blocks@[k])@ == right.blocks@[k]@ {
        assert(a =~= b);
    }
}

/// An edited page is patched where it can be, and else rendered whole over the same file, with the
/// layout that its annotations give.
pub proof fn law_edited_page_is_patched_or_rendered(
    requested_page: MaterializedPage,
    accepted_page: MaterializedPage,
    base: SourceBase,
    annotations: Seq<crate::annotation::AnnotatedIdentity>,
    parses: Seq<BlockParses>,
    rendering: PageRendering,
)
    ensures
        ({
            let patched = incremental_projection(
                accepted_page,
                requested_page,
                base.bytes@,
                annotations,
                parses,
            );
            let result = patched_or_rendered(
                requested_page,
                accepted_page,
                base,
                annotations,
                parses,
                rendering,
            );
            &&& patched is Ok && patched->Ok_0 is Some ==> result == Ok::<_, ProjectionError>(
                patched->Ok_0->0,
            )
            &&& patched is Ok && patched->Ok_0 is None ==> result == rendered_with_layout(
                requested_page,
                Some(&base),
                annotated_layout(crate::annotation::annotation_views(annotations)),
                rendering,
            )
            &&& patched is Err ==> result == Err::<RenderedView, _>(patched->Err_0)
        }),
{
}

} // verus!
