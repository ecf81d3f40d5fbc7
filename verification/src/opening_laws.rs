//! What holds of opening a store and its cleanup rounds, and of reading and publishing its files.

use vstd::prelude::*;

use crate::attempts::EntryKind;
use crate::cleanup_opening::{
    cleanup_opening_asks, cleanup_opening_step, CleanupOpeningAction, CleanupOpeningEvent,
    CleanupOpeningPhase, CleanupOpeningStep, CleanupOpeningView,
};
use crate::claim::{claim, enrollment, init_magic};
use crate::files::{
    bounded_read, lease_check, receipt_read, replaceable, LeaseAttempt, OpenedFile, ReceiptFile,
};
use crate::hash::Digest;
use crate::opening::{
    incomplete_entries, incomplete_entry, initialize_asks, initialize_goes, initialize_step,
    root_name, IncompleteEntry, InitializeAction, InitializeEvent, InitializePhase, InitializeStep,
    OpenedNamespaces, RootName, StoreInitialization,
};
use crate::publication::{
    publication_asks, publication_step, PublicationAction, PublicationEvent, PublicationPhase,
    PublicationView, ReceiptDirectoryDurability,
};
use crate::rounds::RoundIdentities;
use crate::store_error::{IoFailure, ProjectionStoreError, StoreFault};

verus! {

/// Whether an event answers what an initialisation waits for.
pub open spec fn answers_opening(phase: InitializePhase, event: InitializeEvent) -> bool {
    match phase {
        InitializePhase::ReadClaim | InitializePhase::ReadInit => event is Read,
        InitializePhase::OpenClaimed { .. } | InitializePhase::OpenNew => event is Opened,
        InitializePhase::ListRoot => event is Empty,
        InitializePhase::PublishInit | InitializePhase::PublishClaim { .. } => event is Published,
        InitializePhase::Ensure { .. } => event is Ensured,
        InitializePhase::ListStore => event is Listed,
        InitializePhase::Done => false,
    }
}

/// Whether an event refuses what was asked for.
pub open spec fn refused_opening(event: InitializeEvent) -> bool {
    match event {
        InitializeEvent::Read(read) => read is Err,
        InitializeEvent::Opened(opened) => opened is Err,
        InitializeEvent::Empty(empty) => empty is Err,
        InitializeEvent::Published(published) => published is Err,
        InitializeEvent::Ensured(ensured) => ensured is Err,
        InitializeEvent::Listed(listed) => listed is Err,
    }
}

/// An initialisation fails with the first refusal; an event that answers nothing leaves it waiting.
pub proof fn law_opening_ends_with_the_first_refusal(
    run: StoreInitialization,
    event: InitializeEvent,
)
    ensures
        answers_opening(run.phase, event) && refused_opening(event) ==> initialize_step(run, event)
            is Finish && initialize_step(run, event)->Finish_0 is Err,
        !answers_opening(run.phase, event) ==> initialize_step(run, event) == InitializeStep::Ask(
            run.phase,
        ),
{
}

/// A store with a claim is opened by that claim, where it is the store's own; its directories must
/// be the ones that the claim names.
pub proof fn law_claimed_store_is_opened_by_its_claim(
    run: StoreInitialization,
    bytes: Vec<u8>,
    opened: OpenedNamespaces,
)
    ensures
        run.phase is ReadClaim ==> {
            let step = initialize_step(run, InitializeEvent::Read(Ok(Some(bytes))));
            &&& step is Ask ==> step->Ask_0 is OpenClaimed && bytes@ == claim(
                run.store_id,
                run.workspace_id,
                run.endpoint,
                step->Ask_0->expected,
            )
            &&& step is Finish ==> step->Finish_0 is Err
        },
        run.phase is OpenClaimed ==> {
            let step = initialize_step(run, InitializeEvent::Opened(Ok(opened)));
            &&& opened.identities == run.phase->expected ==> step == InitializeStep::Finish(
                Ok(opened),
            )
            &&& opened.identities != run.phase->expected ==> step is Finish && step->Finish_0 is Err
                && step->Finish_0->Err_0 is NamespaceSubstitution
        },
{
}

/// A store without a claim is initialised in order. A claim of an initialisation that was begun must
/// be the store's own; where none was begun, the store must be empty and the claim is published
/// first. Then each of the five directories is made, the store is looked through, its directories
/// are opened, and its claim is published last.
pub proof fn law_store_is_initialised_in_order(
    run: StoreInitialization,
    bytes: Vec<u8>,
    empty: bool,
    opened: OpenedNamespaces,
)
    ensures
        run.phase is ReadClaim ==> initialize_step(run, InitializeEvent::Read(Ok(None)))
            == InitializeStep::Ask(InitializePhase::ReadInit),
        run.phase is ReadInit ==> initialize_step(run, InitializeEvent::Read(Ok(None)))
            == InitializeStep::Ask(InitializePhase::ListRoot),
        run.phase is ReadInit ==> initialize_step(run, InitializeEvent::Read(Ok(Some(bytes)))) == (
        if bytes@ == enrollment(init_magic(), run.store_id, run.workspace_id, run.endpoint) {
            InitializeStep::Ask(InitializePhase::Ensure { namespace: 0 })
        } else {
            InitializeStep::Finish(Err(ProjectionStoreError::MalformedStoreClaim))
        }),
        run.phase is ListRoot ==> initialize_step(run, InitializeEvent::Empty(Ok(empty))) == (
        if empty {
            InitializeStep::Ask(InitializePhase::PublishInit)
        } else {
            InitializeStep::Finish(Err(ProjectionStoreError::ClaimlessNonemptyStore))
        }),
        run.phase is PublishInit ==> initialize_step(run, InitializeEvent::Published(Ok(())))
            == InitializeStep::Ask(InitializePhase::Ensure { namespace: 0 }),
        run.phase is Ensure && run.phase->namespace < 4 ==> initialize_step(
            run,
            InitializeEvent::Ensured(Ok(())),
        ) == InitializeStep::Ask(
            InitializePhase::Ensure { namespace: (run.phase->namespace + 1) as u8 },
        ),
        run.phase is Ensure && run.phase->namespace == 4 ==> initialize_step(
            run,
            InitializeEvent::Ensured(Ok(())),
        ) == InitializeStep::Ask(InitializePhase::ListStore),
        run.phase is OpenNew ==> initialize_step(run, InitializeEvent::Opened(Ok(opened)))
            == InitializeStep::Ask(InitializePhase::PublishClaim { opened }),
        run.phase is PublishClaim ==> initialize_step(run, InitializeEvent::Published(Ok(())))
            == InitializeStep::Finish(Ok(run.phase->PublishClaim_opened)),
{
}

/// The five directories are made under their names, one after another, and the two claims are the
/// store's own; only the directories of a claimed store are opened as such.
pub proof fn law_opening_asks_for_the_stores_own(
    run: StoreInitialization,
    phase: InitializePhase,
    action: InitializeAction,
)
    requires
        initialize_asks(run, phase, action),
    ensures
        phase == (InitializePhase::Ensure { namespace: 0 }) ==> action
            == InitializeAction::EnsureNamespace("bases"),
        phase == (InitializePhase::Ensure { namespace: 1 }) ==> action
            == InitializeAction::EnsureNamespace("intents"),
        phase == (InitializePhase::Ensure { namespace: 2 }) ==> action
            == InitializeAction::EnsureNamespace("completions"),
        phase == (InitializePhase::Ensure { namespace: 3 }) ==> action
            == InitializeAction::EnsureNamespace("attempts"),
        phase == (InitializePhase::Ensure { namespace: 4 }) ==> action
            == InitializeAction::EnsureNamespace("forensics"),
        action is PublishClaim ==> phase is PublishClaim && action->PublishClaim_0@ == claim(
            run.store_id,
            run.workspace_id,
            run.endpoint,
            phase->PublishClaim_opened.identities,
        ),
        action is PublishInitClaim ==> phase is PublishInit && action->PublishInitClaim_0@
            == enrollment(init_magic(), run.store_id, run.workspace_id, run.endpoint),
        action is OpenNamespaces ==> (action->claimed <==> phase is OpenClaimed),
        action is ReadClaim <==> phase is ReadClaim,
        action is ReadInitClaim <==> phase is ReadInit,
{
}

/// A store that opens is the one asked for, over the directories that were opened.
pub proof fn law_opened_store_is_the_one_asked_for(
    run: StoreInitialization,
    event: InitializeEvent,
    after: StoreInitialization,
    action: InitializeAction,
)
    requires
        initialize_goes(run, initialize_step(run, event), after, action),
        action is Finish,
        action->Finish_0 is Ok,
    ensures
        action->Finish_0->Ok_0.root_path@ == run.root_path@,
        action->Finish_0->Ok_0.store_id == run.store_id,
        action->Finish_0->Ok_0.workspace_id == run.workspace_id,
        action->Finish_0->Ok_0.endpoint == run.endpoint,
        action->Finish_0->Ok_0.retired_own_endpoint_intents@.len() == 0,
        run.phase is OpenClaimed || run.phase is PublishClaim,
        run.phase is OpenClaimed ==> action->Finish_0->Ok_0.namespace_identities
            == run.phase->expected && event is Opened && event->Opened_0 is Ok
            && action->Finish_0->Ok_0.pending_cleanup_identity
            == event->Opened_0->Ok_0.pending_cleanup,
        run.phase is PublishClaim ==> action->Finish_0->Ok_0.namespace_identities
            == run.phase->PublishClaim_opened.identities
            && action->Finish_0->Ok_0.pending_cleanup_identity
            == run.phase->PublishClaim_opened.pending_cleanup,
{
}

/// Whether an entry may be in a store that is being initialised: the claim of the initialisation, as
/// a file, or one of the five directories, empty.
pub open spec fn may_be_in_a_new_store(entry: IncompleteEntry) -> bool {
    &&& entry.name is Some
    &&& {
        ||| (entry.name->0)@ == "projection-receipts.init"@ && entry.kind == EntryKind::File
        ||| {
            &&& (entry.name->0)@ == "bases"@ || (entry.name->0)@ == "intents"@ || (
            entry.name->0)@ == "completions"@ || (entry.name->0)@ == "attempts"@ || (
            entry.name->0)@ == "forensics"@
            &&& entry.kind == EntryKind::Directory
            &&& entry.empty is Ok
            &&& entry.empty->Ok_0
        }
    }
}

/// Where the first entries are accepted, each of them is; where one is not, they are not.
proof fn lemma_incomplete(entries: Seq<IncompleteEntry>, n: nat)
    requires
        n <= entries.len(),
    ensures
        incomplete_entries(entries, n) is Ok <==> forall|k: int|
            0 <= k < n ==> incomplete_entry(#[trigger] entries[k]) is Ok,
    decreases n,
{
    if n > 0 {
        lemma_incomplete(entries, (n - 1) as nat);
        if incomplete_entries(entries, n) is Ok {
            assert forall|k: int| 0 <= k < n implies incomplete_entry(#[trigger] entries[k])
                is Ok by {}
        } else {
            assert(incomplete_entries(entries, (n - 1) as nat) is Err || incomplete_entry(
                entries[n - 1],
            ) is Err);
        }
    }
}

/// An entry is accepted exactly where it may be in a store that is being initialised.
proof fn lemma_new_store_entry(entry: IncompleteEntry)
    ensures
        incomplete_entry(entry) is Ok <==> may_be_in_a_new_store(entry),
{
    reveal_strlit("projection-receipts.init");
    reveal_strlit("bases");
    reveal_strlit("intents");
    reveal_strlit("completions");
    reveal_strlit("attempts");
    reveal_strlit("forensics");
    if entry.name is Some {
        let name = (entry.name->0)@;
        if name == "projection-receipts.init"@ {
            assert(incomplete_entry(entry) is Ok <==> entry.kind == EntryKind::File);
            assert(name.len() == 24);
        } else {
            assert(incomplete_entry(entry) is Ok ==> may_be_in_a_new_store(entry));
            assert(may_be_in_a_new_store(entry) ==> incomplete_entry(entry) is Ok);
        }
    }
}

/// A store that is being initialised goes on exactly where it holds nothing but what an
/// initialisation makes.
pub proof fn law_new_store_holds_nothing_else(
    run: StoreInitialization,
    entries: Vec<IncompleteEntry>,
)
    requires
        run.phase is ListStore,
    ensures
        initialize_step(run, InitializeEvent::Listed(Ok(entries))) == InitializeStep::Ask(
            InitializePhase::OpenNew,
        ) <==> forall|k: int|
            0 <= k < entries@.len() ==> may_be_in_a_new_store(#[trigger] entries@[k]),
        initialize_step(run, InitializeEvent::Listed(Ok(entries))) is Ask ==> initialize_step(
            run,
            InitializeEvent::Listed(Ok(entries)),
        )->Ask_0 is OpenNew,
{
    lemma_incomplete(entries@, entries@.len());
    assert forall|k: int| 0 <= k < entries@.len() implies (incomplete_entry(
        #[trigger] entries@[k],
    ) is Ok <==> may_be_in_a_new_store(entries@[k])) by {
        lemma_new_store_entry(entries@[k]);
    }
}

/// A store is opened only under a path that ends in an ordinary name and has a parent.
pub proof fn law_store_root_is_named(root: RootName)
    ensures
        root_name(root) is Ok <==> root is Named,
        root is Named ==> root_name(root)->Ok_0 == root->Named_0,
{
}

/// Whether an event answers what the opening of the cleanup rounds waits for.
pub open spec fn answers_cleanup_opening(
    phase: CleanupOpeningPhase,
    event: CleanupOpeningEvent,
) -> bool {
    match phase {
        CleanupOpeningPhase::ReadRecord => event is Record,
        CleanupOpeningPhase::EnsureDirectory => event is Ensured,
        CleanupOpeningPhase::Identify { .. } => event is Identified,
        CleanupOpeningPhase::Encode { .. } => event is Encoded,
        CleanupOpeningPhase::ReadState { .. } => event is StateExists,
        CleanupOpeningPhase::CheckRoot { .. } => event is RootChecked,
        CleanupOpeningPhase::EnsureRounds { .. } => event is RoundsEnsured,
        CleanupOpeningPhase::PublishState { .. } => event is Published,
        CleanupOpeningPhase::OpenRounds { .. } => event is RoundsOpened,
        CleanupOpeningPhase::PublishRecord { .. } => event is Published,
        CleanupOpeningPhase::Done => false,
    }
}

/// Why an event refuses what was asked for, if it does.
pub open spec fn refused_cleanup_opening(event: CleanupOpeningEvent) -> Option<
    ProjectionStoreError,
> {
    match event {
        CleanupOpeningEvent::Record(Err(error)) => Some(error),
        CleanupOpeningEvent::Ensured(Err(error)) => Some(error),
        CleanupOpeningEvent::Identified(Err(error)) => Some(error),
        CleanupOpeningEvent::Encoded(Err(message)) => Some(ProjectionStoreError::Encode(message)),
        CleanupOpeningEvent::StateExists(Err(error)) => Some(error),
        CleanupOpeningEvent::RootChecked(Err(error)) => Some(error),
        CleanupOpeningEvent::RoundsEnsured(Err(error)) => Some(error),
        CleanupOpeningEvent::Published(Err(error)) => Some(error),
        CleanupOpeningEvent::RoundsOpened(Err(error)) => Some(error),
        _ => None,
    }
}

/// The opening of the cleanup rounds ends with the first refusal, for its reason; an event that
/// answers nothing leaves it as it is.
pub proof fn law_cleanup_opening_ends_with_the_first_refusal(
    run: CleanupOpeningView,
    event: CleanupOpeningEvent,
)
    ensures
        answers_cleanup_opening(run.phase, event) && refused_cleanup_opening(event) is Some
            ==> cleanup_opening_step(run, event) == CleanupOpeningStep::Finish(
            Err(refused_cleanup_opening(event)->0),
        ),
        !answers_cleanup_opening(run.phase, event) ==> cleanup_opening_step(run, event)
            == CleanupOpeningStep::Ask(run),
{
}

/// Whether an opening goes on in a phase, with nothing else about it changed.
pub open spec fn cleanup_opening_goes_on(
    run: CleanupOpeningView,
    step: CleanupOpeningStep,
    phase: CleanupOpeningPhase,
) -> bool {
    step == CleanupOpeningStep::Ask(CleanupOpeningView { phase, ..run })
}

/// The directory of the cleanup rounds is made where it has no record, and is else taken as it is;
/// it is identified before its record is encoded, and a record that was there must be that of this
/// store and this directory to the byte.
pub proof fn law_cleanup_directory_is_its_own(
    run: CleanupOpeningView,
    record: Vec<u8>,
    identity: Digest,
    bytes: Vec<u8>,
)
    ensures
        run.phase is ReadRecord ==> cleanup_opening_step(run, CleanupOpeningEvent::Record(Ok(None)))
            == CleanupOpeningStep::Ask(
            CleanupOpeningView {
                phase: CleanupOpeningPhase::EnsureDirectory,
                existing: None,
                ..run
            },
        ),
        run.phase is ReadRecord ==> cleanup_opening_step(
            run,
            CleanupOpeningEvent::Record(Ok(Some(record))),
        ) == CleanupOpeningStep::Ask(
            CleanupOpeningView {
                phase: CleanupOpeningPhase::Identify { new: false },
                existing: Some(record@),
                ..run
            },
        ),
        run.phase is EnsureDirectory ==> cleanup_opening_goes_on(
            run,
            cleanup_opening_step(run, CleanupOpeningEvent::Ensured(Ok(()))),
            CleanupOpeningPhase::Identify { new: true },
        ),
        run.phase is Identify ==> cleanup_opening_goes_on(
            run,
            cleanup_opening_step(run, CleanupOpeningEvent::Identified(Ok(identity))),
            CleanupOpeningPhase::Encode { new: run.phase->Identify_new, identity },
        ),
        run.phase is Encode ==> {
            let step = cleanup_opening_step(run, CleanupOpeningEvent::Encoded(Ok(bytes)));
            &&& run.existing is None || run.existing == Some(bytes@) ==> step
                == CleanupOpeningStep::Ask(
                CleanupOpeningView {
                    phase: CleanupOpeningPhase::ReadState {
                        new: run.phase->Encode_new,
                        identity: run.phase->Encode_identity,
                    },
                    expected: bytes@,
                    ..run
                },
            )
            &&& run.existing is Some && run.existing != Some(bytes@) ==> step is Finish
                && step->Finish_0 is Err && step->Finish_0->Err_0 is NamespaceSubstitution
        },
{
}

/// The rounds are opened by the state that is there. A directory that was there before must have
/// one; a new one without a state is checked, gets its two rounds and then its state, and only a
/// new directory gets a record, last.
pub proof fn law_cleanup_rounds_are_opened_in_order(
    run: CleanupOpeningView,
    there: bool,
    rounds: RoundIdentities,
)
    ensures
        run.phase is ReadState ==> {
            let step = cleanup_opening_step(run, CleanupOpeningEvent::StateExists(Ok(there)));
            let identity = run.phase->ReadState_identity;
            &&& there ==> cleanup_opening_goes_on(
                run,
                step,
                CleanupOpeningPhase::OpenRounds { new: run.phase->ReadState_new, identity },
            )
            &&& !there && run.phase->ReadState_new ==> cleanup_opening_goes_on(
                run,
                step,
                CleanupOpeningPhase::CheckRoot { identity },
            )
            &&& !there && !run.phase->ReadState_new ==> step is Finish && step->Finish_0 is Err
                && step->Finish_0->Err_0 is NamespaceSubstitution
        },
        run.phase is CheckRoot ==> cleanup_opening_goes_on(
            run,
            cleanup_opening_step(run, CleanupOpeningEvent::RootChecked(Ok(()))),
            CleanupOpeningPhase::EnsureRounds { identity: run.phase->CheckRoot_identity },
        ),
        run.phase is EnsureRounds ==> cleanup_opening_goes_on(
            run,
            cleanup_opening_step(run, CleanupOpeningEvent::RoundsEnsured(Ok(rounds))),
            CleanupOpeningPhase::PublishState {
                identity: run.phase->EnsureRounds_identity,
                rounds,
            },
        ),
        run.phase is PublishState ==> cleanup_opening_goes_on(
            run,
            cleanup_opening_step(run, CleanupOpeningEvent::Published(Ok(()))),
            CleanupOpeningPhase::OpenRounds {
                new: true,
                identity: run.phase->PublishState_identity,
            },
        ),
        run.phase is OpenRounds && run.phase->OpenRounds_new ==> cleanup_opening_goes_on(
            run,
            cleanup_opening_step(run, CleanupOpeningEvent::RoundsOpened(Ok(()))),
            CleanupOpeningPhase::PublishRecord { identity: run.phase->OpenRounds_identity },
        ),
        run.phase is OpenRounds && !run.phase->OpenRounds_new ==> cleanup_opening_step(
            run,
            CleanupOpeningEvent::RoundsOpened(Ok(())),
        ) == CleanupOpeningStep::Finish(Ok(run.phase->OpenRounds_identity)),
        run.phase is PublishRecord ==> cleanup_opening_step(
            run,
            CleanupOpeningEvent::Published(Ok(())),
        ) == CleanupOpeningStep::Finish(Ok(run.phase->PublishRecord_identity)),
{
}

/// What is published for the cleanup rounds is of this store, this directory and these rounds, and
/// starts with the first round; the record is the one that was encoded.
pub proof fn law_cleanup_state_is_of_its_directory(
    run: CleanupOpeningView,
    action: CleanupOpeningAction,
)
    requires
        cleanup_opening_asks(run, action),
    ensures
        run.phase is Encode ==> action is Encode && action->Encode_0.store_id == run.store_id
            && action->Encode_0.directory_identity == run.phase->Encode_identity
            && action->Encode_0.schema_version == 1,
        run.phase is PublishState ==> action is PublishState && action->PublishState_0.store_id
            == run.store_id && action->PublishState_0.namespace_identity
            == run.phase->PublishState_identity && action->PublishState_0.first_identity
            == run.phase->rounds.first && action->PublishState_0.second_identity
            == run.phase->rounds.second && action->PublishState_0.active_round == 0
            && action->PublishState_0.schema_version == 1,
        run.phase is PublishRecord ==> action is PublishRecord && action->PublishRecord_0@
            == run.expected,
{
}

/// Whether a publication goes on in a phase, with nothing else about it changed.
pub open spec fn publication_goes_on(
    run: PublicationView,
    after: PublicationView,
    phase: PublicationPhase,
) -> bool {
    after == (PublicationView { phase, ..run })
}

/// Whether a publication ends, well or with a fault: the other file is removed first, where it was
/// made.
pub open spec fn publication_ends(
    run: PublicationView,
    after: PublicationView,
    written: bool,
    fault: Option<StoreFault>,
) -> bool {
    after == (PublicationView {
        phase: if written {
            PublicationPhase::Removing
        } else {
            PublicationPhase::Done
        },
        fault,
        ..run
    })
}

/// A file that is there with the bytes is as good as published: where the store is claimed, its
/// directory is made sure of first. A file that is not there is written under another name, looked
/// for once more, and moved to its place; the directory is noted to change first, where the store
/// is claimed.
pub proof fn law_publication_writes_only_what_is_missing(
    run: PublicationView,
    existing: Vec<u8>,
    written: bool,
)
    requires
        run.phase == (PublicationPhase::Looking { written }),
    ensures
        ({
            let found = publication_step(run, PublicationEvent::Existing(Ok(Some(existing))));
            let missing = publication_step(run, PublicationEvent::Existing(Ok(None)));
            let claimed = run.durability == ReceiptDirectoryDurability::PromotedAuthority;
            &&& existing@ == run.bytes && claimed ==> publication_goes_on(
                run,
                found,
                PublicationPhase::VerifyingParent { written },
            )
            &&& existing@ == run.bytes && !claimed ==> publication_ends(run, found, written, None)
            &&& existing@ != run.bytes ==> publication_ends(
                run,
                found,
                written,
                Some(StoreFault::ImmutableCollision(run.kind)),
            )
            &&& !written ==> publication_goes_on(run, missing, PublicationPhase::Creating)
            &&& written && claimed ==> publication_goes_on(
                run,
                missing,
                PublicationPhase::Beginning,
            )
            &&& written && !claimed ==> publication_goes_on(
                run,
                missing,
                PublicationPhase::Renaming,
            )
        }),
{
}

/// Writing goes in order: the other file is made, written, looked past, moved to its place, made
/// durable there, and read back; only what is read back to the byte is published.
pub proof fn law_publication_goes_in_order(run: PublicationView, existing: Vec<u8>)
    ensures
        ({
            let went = publication_step(run, PublicationEvent::Outcome(Ok(())));
            let found = publication_step(run, PublicationEvent::Existing(Ok(Some(existing))));
            let missing = publication_step(run, PublicationEvent::Existing(Ok(None)));
            &&& run.phase is Creating ==> publication_goes_on(run, went, PublicationPhase::Writing)
            &&& run.phase is Writing ==> publication_goes_on(
                run,
                went,
                PublicationPhase::Looking { written: true },
            )
            &&& run.phase is Beginning ==> publication_goes_on(
                run,
                went,
                PublicationPhase::Renaming,
            )
            &&& run.phase is Renaming ==> publication_goes_on(run, went, PublicationPhase::Syncing)
            &&& run.phase is Syncing ==> publication_goes_on(run, went, PublicationPhase::Checking)
            &&& run.phase is VerifyingParent ==> publication_ends(
                run,
                went,
                run.phase->VerifyingParent_written,
                None,
            )
            &&& run.phase is Checking && existing@ == run.bytes ==> publication_ends(
                run,
                found,
                true,
                None,
            )
            &&& run.phase is Checking && existing@ != run.bytes ==> publication_ends(
                run,
                found,
                true,
                Some(StoreFault::ImmutableCollision(run.kind)),
            )
            &&& run.phase is Checking ==> missing.phase is Removing && missing.fault is Some
                && missing.fault->0 is Io
        }),
{
}

/// A publication that is refused something fails for that reason, and removes the other file where
/// it may be there. Removing it keeps a fault that there was; a file that is not there is as good as
/// removed.
pub proof fn law_publication_ends_with_the_first_fault(
    run: PublicationView,
    fault: StoreFault,
    failure: IoFailure,
)
    ensures
        ({
            let refused = publication_step(run, PublicationEvent::Outcome(Err(fault)));
            let removed = publication_step(run, PublicationEvent::Removed(Ok(())));
            let stuck = publication_step(run, PublicationEvent::Removed(Err(failure)));
            &&& run.phase is Creating ==> publication_ends(run, refused, false, Some(fault))
            &&& run.phase is Writing || run.phase is Beginning || run.phase is Renaming
                || run.phase is Syncing ==> publication_ends(run, refused, true, Some(fault))
            &&& run.phase is VerifyingParent ==> publication_ends(
                run,
                refused,
                run.phase->VerifyingParent_written,
                Some(fault),
            )
            &&& run.phase is Removing ==> publication_goes_on(run, removed, PublicationPhase::Done)
            &&& run.phase is Removing && (run.fault is Some || failure.kind is NotFound)
                ==> publication_goes_on(run, stuck, PublicationPhase::Done)
            &&& run.phase is Removing && run.fault is None && !(failure.kind is NotFound) ==> stuck
                == (PublicationView {
                phase: PublicationPhase::Done,
                fault: Some(StoreFault::Io(failure)),
                ..run
            })
        }),
{
}

/// A publication asks for what its phase says, and has succeeded exactly where it ended without a
/// fault.
pub proof fn law_publication_succeeds_without_a_fault(run: PublicationView)
    ensures
        publication_asks(run) is Succeeded <==> run.phase is Done && run.fault is None,
        publication_asks(run) is Failed <==> run.phase is Done && run.fault is Some,
        publication_asks(run) is Rename <==> run.phase is Renaming,
        publication_asks(run) is ReadExisting <==> run.phase is Looking || run.phase is Checking,
        publication_asks(run) is WriteTemporary <==> run.phase is Writing,
        publication_asks(run) is CreateTemporary <==> run.phase is Creating,
        publication_asks(run) is BeginMutation <==> run.phase is Beginning,
        publication_asks(run) is RemoveTemporary <==> run.phase is Removing,
        publication_asks(run) is VerifyParent <==> run.phase is VerifyingParent,
        run.phase is Syncing ==> publication_asks(run) == PublicationAction::SyncDirectory(
            run.durability,
        ),
{
}

/// The record of an authority is read only from a plain file with one name, no longer than it may
/// be, of the length that was expected, and read to its end.
pub proof fn law_only_plain_records_are_read(
    name: String,
    file: OpenedFile,
    max_length: u64,
    expected_length: Option<u64>,
)
    ensures
        ({
            let read = bounded_read(name, file, max_length, expected_length);
            &&& file is Missing <==> read is Ok && read->Ok_0 is None
            &&& read is Ok && read->Ok_0 is Some <==> {
                &&& file is Opened
                &&& file->Opened_0.is_file
                &&& file->Opened_0.single_link
                &&& !file->Opened_0.reparse_point
                &&& file->Opened_0.length <= max_length
                &&& expected_length is Some ==> file->Opened_0.length == expected_length->0
                &&& file->Opened_0.bytes is Ok
                &&& file->Opened_0.bytes->Ok_0@.len() == file->Opened_0.length
            }
            &&& read is Ok && read->Ok_0 is Some ==> read->Ok_0->0
                == file->Opened_0.bytes->Ok_0
        }),
{
}

/// A record is replaced only where it still is what was expected and what replaces it is no longer
/// than a record may be.
pub proof fn law_only_the_expected_record_is_replaced(
    read: Result<Option<Vec<u8>>, ProjectionStoreError>,
    expected: Seq<u8>,
    replacement: Seq<u8>,
)
    ensures
        replaceable(read, expected, replacement) is Ok <==> read is Ok && read->Ok_0 is Some && (
        read->Ok_0->0)@ == expected && replacement.len() <= 64 * 1024 * 1024,
        read is Err ==> replaceable(read, expected, replacement) == Err::<(), _>(read->Err_0),
{
}

/// A lease is held only over a plain file with one name; one that another holds, or that may not be
/// taken, leaves the mutation pending.
pub proof fn law_lease_is_held_over_a_plain_file(name: String, attempt: LeaseAttempt)
    ensures
        lease_check(name, attempt) is Ok <==> attempt is Locked && attempt->Locked_0.is_file
            && attempt->Locked_0.single_link && !attempt->Locked_0.reparse_point,
        attempt is Contended || attempt is PermissionDenied <==> lease_check(name, attempt) is Err
            && lease_check(name, attempt)->Err_0 is MutationAuthorityPending,
{
}

/// A private file is read only where it is a plain file, of the length that was expected, within
/// the limit, and read to its end.
pub proof fn law_only_whole_receipts_are_read(
    path: String,
    file: ReceiptFile,
    limit: u64,
    expected_length: Option<u64>,
)
    ensures
        ({
            let read = receipt_read(path, file, limit, expected_length);
            &&& file is Missing <==> read is Ok && read->Ok_0 is None
            &&& read is Ok && read->Ok_0 is Some <==> {
                &&& file is Opened
                &&& file->is_file
                &&& file->length <= limit
                &&& expected_length is Some ==> file->length == expected_length->0
                &&& file->bytes is Ok
                &&& file->bytes->Ok_0@.len() == file->length
            }
            &&& read is Ok && read->Ok_0 is Some ==> read->Ok_0->0 == file->bytes->Ok_0
        }),
{
}

/// A file that is there with another length than the bytes, or longer than may be read, is another
/// file: the publication fails as for other bytes. Any other failure to read it is told as it is.
pub proof fn law_files_of_other_lengths_are_kept(
    run: PublicationView,
    written: bool,
    fault: StoreFault,
)
    requires
        run.phase == (PublicationPhase::Looking { written }),
    ensures
        publication_ends(
            run,
            publication_step(run, PublicationEvent::Existing(Err(fault))),
            written,
            Some(
                if fault is StoredLengthMismatch || fault is StoredFileTooLarge {
                    StoreFault::ImmutableCollision(run.kind)
                } else {
                    fault
                },
            ),
        ),
{
}

} // verus!
