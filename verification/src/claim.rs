//! The claim of a receipt store: what it says, and whether it may be opened.

use vstd::prelude::*;

use crate::bytes::{be_bytes, be_value, push_be, push_bytes, read_be, same_bytes};
use crate::execution::ProjectionEndpointBinding;
use crate::hash::Digest;
use crate::ids::{ProjectionIntentId, ProjectionReceiptStoreId, Uuid, WorkspaceId};
use crate::store_error::{error_at, storage_error, IoFailure, ProjectionStoreError, StoreFault};

verus! {

/// The version of the store's claim.
pub const STORE_CLAIM_VERSION: u32 = 6;

/// The length of a claim without the identities of the store's directories.
pub const STORE_CLAIM_BASE_LEN: usize = 125;

/// The length of a claim, with five identities of thirty-two bytes each.
pub const STORE_CLAIM_LEN: usize = STORE_CLAIM_BASE_LEN + 160;

/// How a claim starts: `TINEPR`, the digit six and a zero byte.
pub open spec fn claim_magic() -> Seq<u8> {
    seq![0x54u8, 0x49u8, 0x4eu8, 0x45u8, 0x50u8, 0x52u8, 0x36u8, 0u8]
}

/// How the claim of a store that is being initialised starts: `TINEPI`, the digit five and a zero
/// byte.
pub open spec fn init_magic() -> Seq<u8> {
    seq![0x54u8, 0x49u8, 0x4eu8, 0x45u8, 0x50u8, 0x49u8, 0x35u8, 0u8]
}

/// How claims of earlier versions start: as now, with the digits five, four and three.
pub open spec fn is_prior_magic(magic: Seq<u8>) -> bool {
    exists|digit: u8| 0x33u8 <= digit <= 0x35u8 && magic == #[trigger] prior_magic(digit)
}

/// How the claim of the version with the given digit starts.
pub open spec fn prior_magic(digit: u8) -> Seq<u8> {
    seq![0x54u8, 0x49u8, 0x4eu8, 0x45u8, 0x50u8, 0x52u8, digit, 0u8]
}

/// The identities of a store's directories.
#[derive(Clone, Copy, Debug, PartialEq, Eq, Structural)]
pub struct NamespaceIdentities {
    pub bases: Digest,
    pub intents: Digest,
    pub completions: Digest,
    pub attempts: Digest,
    pub forensics: Digest,
}

impl NamespaceIdentities {
    /// The identities one after another.
    pub open spec fn spec_bytes(self) -> Seq<u8> {
        self.bases.spec_bytes() + self.intents.spec_bytes() + self.completions.spec_bytes()
            + self.attempts.spec_bytes() + self.forensics.spec_bytes()
    }
}

/// The bytes of an endpoint.
pub open spec fn binding_bytes(endpoint: ProjectionEndpointBinding) -> Seq<u8> {
    endpoint.endpoint_id.uuid.spec_bytes() + endpoint.device_id.uuid.spec_bytes()
        + endpoint.graph_resource_id.digest.spec_bytes()
}

/// The bytes of an endpoint.
pub fn endpoint_binding_bytes(endpoint: ProjectionEndpointBinding) -> (bytes: Vec<u8>)
    ensures
        bytes@ == binding_bytes(endpoint),
{
    let mut bytes = endpoint.endpoint_id.uuid.to_bytes();
    push_bytes(&mut bytes, endpoint.device_id.uuid.to_bytes().as_slice());
    push_bytes(&mut bytes, endpoint.graph_resource_id.digest.to_bytes().as_slice());
    assert(bytes@ =~= binding_bytes(endpoint));
    bytes
}

/// The part of a claim that says which endpoint the store is for: a flag and the endpoint's bytes,
/// or zeroes.
pub open spec fn endpoint_part(endpoint: Option<ProjectionEndpointBinding>) -> Seq<u8> {
    match endpoint {
        Some(endpoint) => seq![1u8] + binding_bytes(endpoint),
        None => seq![0u8] + Seq::new(64, |i: int| 0u8),
    }
}

/// The part of a claim that says what the store is for.
pub open spec fn enrollment(
    magic: Seq<u8>,
    store_id: ProjectionReceiptStoreId,
    workspace_id: WorkspaceId,
    endpoint: Option<ProjectionEndpointBinding>,
) -> Seq<u8> {
    magic + be_bytes(STORE_CLAIM_VERSION as nat, 4) + store_id.digest.spec_bytes()
        + workspace_id.uuid.spec_bytes() + endpoint_part(endpoint)
}

/// The claim of a store.
pub open spec fn claim(
    store_id: ProjectionReceiptStoreId,
    workspace_id: WorkspaceId,
    endpoint: Option<ProjectionEndpointBinding>,
    identities: NamespaceIdentities,
) -> Seq<u8> {
    enrollment(claim_magic(), store_id, workspace_id, endpoint) + identities.spec_bytes()
}

/// Writes the part of a claim that says what the store is for.
fn enrollment_claim_bytes(
    magic: &[u8],
    store_id: ProjectionReceiptStoreId,
    workspace_id: WorkspaceId,
    endpoint: Option<ProjectionEndpointBinding>,
) -> (bytes: Vec<u8>)
    ensures
        bytes@ == enrollment(magic@, store_id, workspace_id, endpoint),
{
    let mut bytes: Vec<u8> = Vec::new();
    push_bytes(&mut bytes, magic);
    push_be(&mut bytes, 6, 4);
    push_bytes(&mut bytes, store_id.digest.to_bytes().as_slice());
    push_bytes(&mut bytes, workspace_id.uuid.to_bytes().as_slice());
    let ghost before = bytes@;
    match endpoint {
        Some(endpoint) => {
            bytes.push(1);
            push_bytes(&mut bytes, endpoint_binding_bytes(endpoint).as_slice());
        },
        None => {
            bytes.push(0);
            let mut zeroes: usize = 0;
            while zeroes < 64
                invariant
                    zeroes <= 64,
                    bytes@ == before.push(0u8) + Seq::new(zeroes as nat, |i: int| 0u8),
                decreases 64 - zeroes,
            {
                bytes.push(0);
                zeroes = zeroes + 1;
                assert(bytes@ =~= before.push(0u8) + Seq::new(zeroes as nat, |i: int| 0u8));
            }
        },
    }
    assert(bytes@ =~= before + endpoint_part(endpoint));
    assert(bytes@ =~= enrollment(magic@, store_id, workspace_id, endpoint));
    bytes
}

/// Writes the claim of a store.
pub fn claim_bytes(
    store_id: ProjectionReceiptStoreId,
    workspace_id: WorkspaceId,
    endpoint: Option<ProjectionEndpointBinding>,
    identities: &NamespaceIdentities,
) -> (bytes: Vec<u8>)
    ensures
        bytes@ == claim(store_id, workspace_id, endpoint, *identities),
{
    let magic: [u8; 8] = [0x54, 0x49, 0x4e, 0x45, 0x50, 0x52, 0x36, 0];
    assert(magic@ =~= claim_magic());
    let mut bytes = enrollment_claim_bytes(magic.as_slice(), store_id, workspace_id, endpoint);
    push_bytes(&mut bytes, identities.bases.to_bytes().as_slice());
    push_bytes(&mut bytes, identities.intents.to_bytes().as_slice());
    push_bytes(&mut bytes, identities.completions.to_bytes().as_slice());
    push_bytes(&mut bytes, identities.attempts.to_bytes().as_slice());
    push_bytes(&mut bytes, identities.forensics.to_bytes().as_slice());
    assert(bytes@ =~= claim(store_id, workspace_id, endpoint, *identities));
    bytes
}

/// Writes the claim of a store that is being initialised.
pub fn init_claim_bytes(
    store_id: ProjectionReceiptStoreId,
    workspace_id: WorkspaceId,
    endpoint: Option<ProjectionEndpointBinding>,
) -> (bytes: Vec<u8>)
    ensures
        bytes@ == enrollment(init_magic(), store_id, workspace_id, endpoint),
{
    let magic: [u8; 8] = [0x54, 0x49, 0x4e, 0x45, 0x50, 0x49, 0x35, 0];
    assert(magic@ =~= init_magic());
    enrollment_claim_bytes(magic.as_slice(), store_id, workspace_id, endpoint)
}

/// The version that a claim says it is of.
pub open spec fn claimed_version(bytes: Seq<u8>) -> u32 {
    be_value(bytes.subrange(8, 12)) as u32
}

/// Whether a claim is of this version and of its length, and if not, why. This asks nothing about
/// what the store is for.
pub open spec fn precheck(bytes: Seq<u8>) -> Result<(), ProjectionStoreError> {
    if bytes.len() < 12 {
        Err(ProjectionStoreError::MalformedStoreClaim)
    } else if is_prior_magic(bytes.take(8)) {
        Err(
            ProjectionStoreError::UpgradeRequired {
                found: claimed_version(bytes),
                current: STORE_CLAIM_VERSION,
            },
        )
    } else if bytes.take(8) != claim_magic() {
        Err(ProjectionStoreError::MalformedStoreClaim)
    } else if claimed_version(bytes) < STORE_CLAIM_VERSION {
        Err(
            ProjectionStoreError::UpgradeRequired {
                found: claimed_version(bytes),
                current: STORE_CLAIM_VERSION,
            },
        )
    } else if claimed_version(bytes) > STORE_CLAIM_VERSION {
        Err(ProjectionStoreError::UnknownStoreVersion(claimed_version(bytes)))
    } else if bytes.len() != STORE_CLAIM_LEN {
        Err(ProjectionStoreError::MalformedStoreClaim)
    } else {
        Ok(())
    }
}

/// Checks that a claim is of this version and of its length.
pub fn classify_precheck_claim(bytes: &[u8]) -> (checked: Result<(), ProjectionStoreError>)
    ensures
        checked == precheck(bytes@),
{
    if bytes.len() < 12 {
        return Err(ProjectionStoreError::MalformedStoreClaim);
    }
    let magic = vstd::slice::slice_subrange(bytes, 0, 8);
    assert(magic@ =~= bytes@.take(8));
    let number: u128 = read_be(vstd::slice::slice_subrange(bytes, 8, 12));
    proof {
        crate::bytes::lemma_be_value_bound(bytes@.subrange(8, 12));
        crate::bytes::lemma_pow256_widths();
    }
    let version: u32 = number as u32;
    let mut digit: u8 = 0x33;
    while digit <= 0x35
        invariant
            0x33 <= digit <= 0x36,
            bytes@.len() >= 12,
            magic@ == bytes@.take(8),
            version == claimed_version(bytes@),
            forall|d: u8| 0x33u8 <= d < digit ==> magic@ != #[trigger] prior_magic(d),
        decreases 0x36 - digit,
    {
        let prior: [u8; 8] = [0x54, 0x49, 0x4e, 0x45, 0x50, 0x52, digit, 0];
        assert(prior@ =~= prior_magic(digit));
        if same_bytes(magic, prior.as_slice()) {
            assert(is_prior_magic(bytes@.take(8)));
            return Err(
                ProjectionStoreError::UpgradeRequired {
                    found: version,
                    current: STORE_CLAIM_VERSION,
                },
            );
        }
        digit = digit + 1;
    }
    assert(!is_prior_magic(bytes@.take(8)));
    let current: [u8; 8] = [0x54, 0x49, 0x4e, 0x45, 0x50, 0x52, 0x36, 0];
    assert(current@ =~= claim_magic());
    if !same_bytes(magic, current.as_slice()) {
        return Err(ProjectionStoreError::MalformedStoreClaim);
    }
    if version < STORE_CLAIM_VERSION {
        return Err(
            ProjectionStoreError::UpgradeRequired { found: version, current: STORE_CLAIM_VERSION },
        );
    }
    if version > STORE_CLAIM_VERSION {
        return Err(ProjectionStoreError::UnknownStoreVersion(version));
    }
    if bytes.len() != STORE_CLAIM_LEN {
        return Err(ProjectionStoreError::MalformedStoreClaim);
    }
    Ok(())
}

/// The workspace that a claim says it is for.
pub open spec fn claimed_workspace(bytes: Seq<u8>) -> WorkspaceId {
    WorkspaceId { uuid: Uuid { value: be_value(bytes.subrange(44, 60)) as u128 } }
}

/// The identities that a claim holds.
pub open spec fn claimed_identities(bytes: Seq<u8>) -> NamespaceIdentities {
    NamespaceIdentities {
        bases: Digest::spec_from(bytes.subrange(125, 157)),
        intents: Digest::spec_from(bytes.subrange(157, 189)),
        completions: Digest::spec_from(bytes.subrange(189, 221)),
        attempts: Digest::spec_from(bytes.subrange(221, 253)),
        forensics: Digest::spec_from(bytes.subrange(253, 285)),
    }
}

/// The identities that a store's claim binds, or why the claim is not that of this store.
pub open spec fn claim_verdict(
    bytes: Seq<u8>,
    store_id: ProjectionReceiptStoreId,
    workspace_id: WorkspaceId,
    endpoint: Option<ProjectionEndpointBinding>,
) -> Result<NamespaceIdentities, ProjectionStoreError> {
    match precheck(bytes) {
        Err(error) => Err(error),
        Ok(()) => if bytes.subrange(12, 44) != store_id.digest.spec_bytes() {
            Err(ProjectionStoreError::EndpointBindingMismatch)
        } else if claimed_workspace(bytes) != workspace_id {
            Err(
                ProjectionStoreError::WorkspaceMismatch {
                    expected: workspace_id,
                    found: claimed_workspace(bytes),
                },
            )
        } else if bytes != claim(store_id, workspace_id, endpoint, claimed_identities(bytes)) {
            Err(ProjectionStoreError::EndpointBindingMismatch)
        } else {
            Ok(claimed_identities(bytes))
        },
    }
}

/// Checks a claim against the store that it should be of, and gives the identities that it binds.
pub fn validate_claim(
    bytes: &[u8],
    expected_store_id: ProjectionReceiptStoreId,
    expected_workspace: WorkspaceId,
    expected_endpoint: Option<ProjectionEndpointBinding>,
) -> (identities: Result<NamespaceIdentities, ProjectionStoreError>)
    ensures
        identities == claim_verdict(
            bytes@,
            expected_store_id,
            expected_workspace,
            expected_endpoint,
        ),
{
    if let Err(error) = classify_precheck_claim(bytes) {
        return Err(error);
    }
    if !same_bytes(
        vstd::slice::slice_subrange(bytes, 12, 44),
        expected_store_id.digest.to_bytes().as_slice(),
    ) {
        return Err(ProjectionStoreError::EndpointBindingMismatch);
    }
    let uuid = Uuid::from_bytes(vstd::slice::slice_subrange(bytes, 44, 60));
    let workspace = WorkspaceId { uuid };
    if workspace != expected_workspace {
        return Err(
            ProjectionStoreError::WorkspaceMismatch {
                expected: expected_workspace,
                found: workspace,
            },
        );
    }
    let identities = NamespaceIdentities {
        bases: Digest::from_bytes(vstd::slice::slice_subrange(bytes, 125, 157)),
        intents: Digest::from_bytes(vstd::slice::slice_subrange(bytes, 157, 189)),
        completions: Digest::from_bytes(vstd::slice::slice_subrange(bytes, 189, 221)),
        attempts: Digest::from_bytes(vstd::slice::slice_subrange(bytes, 221, 253)),
        forensics: Digest::from_bytes(vstd::slice::slice_subrange(bytes, 253, 285)),
    };
    let expected = claim_bytes(
        expected_store_id,
        expected_workspace,
        expected_endpoint,
        &identities,
    );
    if !same_bytes(bytes, expected.as_slice()) {
        return Err(ProjectionStoreError::EndpointBindingMismatch);
    }
    Ok(identities)
}

/// The parts of a claim have fixed places.
proof fn lemma_claim_parts(
    store_id: ProjectionReceiptStoreId,
    workspace_id: WorkspaceId,
    endpoint: Option<ProjectionEndpointBinding>,
    identities: NamespaceIdentities,
)
    ensures
        ({
            let bytes = claim(store_id, workspace_id, endpoint, identities);
            &&& bytes.len() == STORE_CLAIM_LEN
            &&& bytes.take(8) == claim_magic()
            &&& claimed_version(bytes) == STORE_CLAIM_VERSION
            &&& bytes.subrange(12, 44) == store_id.digest.spec_bytes()
            &&& claimed_workspace(bytes) == workspace_id
            &&& bytes.subrange(60, 125) == endpoint_part(endpoint)
            &&& claimed_identities(bytes) == identities
        }),
{
    let bytes = claim(store_id, workspace_id, endpoint, identities);
    crate::bytes::lemma_be_bytes_len(STORE_CLAIM_VERSION as nat, 4);
    crate::bytes::lemma_be_bytes_len(workspace_id.uuid.value as nat, 16);
    crate::bytes::lemma_pow256_widths();
    crate::bytes::lemma_be_round_trip(STORE_CLAIM_VERSION as nat, 4);
    crate::bytes::lemma_be_round_trip(workspace_id.uuid.value as nat, 16);
    store_id.digest.lemma_bytes();
    identities.bases.lemma_bytes();
    identities.intents.lemma_bytes();
    identities.completions.lemma_bytes();
    identities.attempts.lemma_bytes();
    identities.forensics.lemma_bytes();
    match endpoint {
        Some(endpoint) => {
            crate::bytes::lemma_be_bytes_len(endpoint.endpoint_id.uuid.value as nat, 16);
            crate::bytes::lemma_be_bytes_len(endpoint.device_id.uuid.value as nat, 16);
            endpoint.graph_resource_id.digest.lemma_bytes();
        },
        None => {},
    }
    assert(endpoint_part(endpoint).len() == 65);
    assert(bytes.take(8) =~= claim_magic());
    assert(bytes.subrange(8, 12) =~= be_bytes(STORE_CLAIM_VERSION as nat, 4));
    assert(bytes.subrange(12, 44) =~= store_id.digest.spec_bytes());
    assert(bytes.subrange(44, 60) =~= workspace_id.uuid.spec_bytes());
    assert(bytes.subrange(60, 125) =~= endpoint_part(endpoint));
    assert(bytes.subrange(125, 157) =~= identities.bases.spec_bytes());
    assert(bytes.subrange(157, 189) =~= identities.intents.spec_bytes());
    assert(bytes.subrange(189, 221) =~= identities.completions.spec_bytes());
    assert(bytes.subrange(221, 253) =~= identities.attempts.spec_bytes());
    assert(bytes.subrange(253, 285) =~= identities.forensics.spec_bytes());
}

/// No earlier claim starts as one of this version does.
proof fn lemma_current_magic()
    ensures
        !is_prior_magic(claim_magic()),
{
    assert forall|digit: u8| 0x33u8 <= digit <= 0x35u8 implies claim_magic()
        != #[trigger] prior_magic(digit) by {
        assert(claim_magic()[6] != prior_magic(digit)[6]);
    }
}

/// A store's claim is accepted for that store and gives back the identities that were bound.
pub proof fn law_claim_reads_back(
    store_id: ProjectionReceiptStoreId,
    workspace_id: WorkspaceId,
    endpoint: Option<ProjectionEndpointBinding>,
    identities: NamespaceIdentities,
)
    ensures
        claim_verdict(
            claim(store_id, workspace_id, endpoint, identities),
            store_id,
            workspace_id,
            endpoint,
        ) == Ok::<_, ProjectionStoreError>(identities),
{
    lemma_claim_parts(store_id, workspace_id, endpoint, identities);
    lemma_current_magic();
}

/// An accepted claim is exactly the one that the store would write, and passes the check that asks
/// nothing about what the store is for.
pub proof fn law_accepted_claim_is_exact(
    bytes: Seq<u8>,
    store_id: ProjectionReceiptStoreId,
    workspace_id: WorkspaceId,
    endpoint: Option<ProjectionEndpointBinding>,
)
    requires
        claim_verdict(bytes, store_id, workspace_id, endpoint) is Ok,
    ensures
        precheck(bytes) is Ok,
        bytes == claim(
            store_id,
            workspace_id,
            endpoint,
            claim_verdict(bytes, store_id, workspace_id, endpoint)->Ok_0,
        ),
{
}

/// Two stores have the same claim only if they agree in identity, workspace, endpoint and
/// directories.
pub proof fn law_claims_tell_stores_apart(
    store_id: ProjectionReceiptStoreId,
    workspace_id: WorkspaceId,
    endpoint: Option<ProjectionEndpointBinding>,
    identities: NamespaceIdentities,
    other_store_id: ProjectionReceiptStoreId,
    other_workspace_id: WorkspaceId,
    other_endpoint: Option<ProjectionEndpointBinding>,
    other_identities: NamespaceIdentities,
)
    requires
        claim(store_id, workspace_id, endpoint, identities) == claim(
            other_store_id,
            other_workspace_id,
            other_endpoint,
            other_identities,
        ),
    ensures
        store_id == other_store_id,
        workspace_id == other_workspace_id,
        endpoint == other_endpoint,
        identities == other_identities,
{
    lemma_claim_parts(store_id, workspace_id, endpoint, identities);
    lemma_claim_parts(other_store_id, other_workspace_id, other_endpoint, other_identities);
    store_id.digest.lemma_bytes();
    other_store_id.digest.lemma_bytes();
    lemma_endpoint_part(endpoint, other_endpoint);
}

/// Two endpoints with the same part of a claim are the same.
proof fn lemma_endpoint_part(
    a: Option<ProjectionEndpointBinding>,
    b: Option<ProjectionEndpointBinding>,
)
    requires
        endpoint_part(a) == endpoint_part(b),
    ensures
        a == b,
{
    assert(endpoint_part(a)[0] == (if a is Some {
        1u8
    } else {
        0u8
    }));
    assert(endpoint_part(b)[0] == (if b is Some {
        1u8
    } else {
        0u8
    }));
    if a is Some {
        let x = a->0;
        let y = b->0;
        let (u, v) = (binding_bytes(x), binding_bytes(y));
        assert(u =~= endpoint_part(a).skip(1));
        assert(v =~= endpoint_part(b).skip(1));
        crate::bytes::lemma_pow256_widths();
        crate::bytes::lemma_be_bytes_len(x.endpoint_id.uuid.value as nat, 16);
        crate::bytes::lemma_be_bytes_len(y.endpoint_id.uuid.value as nat, 16);
        crate::bytes::lemma_be_bytes_len(x.device_id.uuid.value as nat, 16);
        crate::bytes::lemma_be_bytes_len(y.device_id.uuid.value as nat, 16);
        crate::bytes::lemma_be_round_trip(x.endpoint_id.uuid.value as nat, 16);
        crate::bytes::lemma_be_round_trip(y.endpoint_id.uuid.value as nat, 16);
        crate::bytes::lemma_be_round_trip(x.device_id.uuid.value as nat, 16);
        crate::bytes::lemma_be_round_trip(y.device_id.uuid.value as nat, 16);
        x.graph_resource_id.digest.lemma_bytes();
        y.graph_resource_id.digest.lemma_bytes();
        assert(u.subrange(0, 16) =~= x.endpoint_id.uuid.spec_bytes());
        assert(v.subrange(0, 16) =~= y.endpoint_id.uuid.spec_bytes());
        assert(u.subrange(16, 32) =~= x.device_id.uuid.spec_bytes());
        assert(v.subrange(16, 32) =~= y.device_id.uuid.spec_bytes());
        assert(u.subrange(32, 64) =~= x.graph_resource_id.digest.spec_bytes());
        assert(v.subrange(32, 64) =~= y.graph_resource_id.digest.spec_bytes());
    }
}

/// What looking for the claim of a store gave, before anything was opened for writing.
#[derive(Debug, PartialEq, Eq)]
pub enum ClaimProbe {
    /// There is no directory.
    NoStore,
    /// The directory could not be inspected.
    StoreUnknown(IoFailure),
    /// The directory could not be opened.
    StoreClosed(IoFailure),
    /// There is no claim; whether the directory holds anything.
    NoClaim(Result<bool, IoFailure>),
    /// The claim could not be inspected.
    ClaimUnknown(IoFailure),
    /// The claim is not a file.
    NotAFile,
    /// The first bytes of the claim, one more than a claim has.
    Claim(Result<Vec<u8>, IoFailure>),
}

/// A failure of the storage below with what was being done.
pub open spec fn failed_at(operation: &'static str, failure: IoFailure) -> ProjectionStoreError {
    error_at(storage_error(StoreFault::Io(failure)), operation)
}

/// A failure of the storage below with what was being done.
fn fail_at(operation: &'static str, failure: IoFailure) -> (error: ProjectionStoreError)
    ensures
        error == failed_at(operation, failure),
{
    ProjectionStoreError::from_storage(StoreFault::Io(failure)).at(operation)
}

/// Whether a store may be opened at all, as far as its claim shows without writing anything.
pub open spec fn probe_verdict(probe: ClaimProbe) -> Result<(), ProjectionStoreError> {
    match probe {
        ClaimProbe::NoStore => Ok(()),
        ClaimProbe::StoreUnknown(failure) => Err(
            failed_at("inspect private receipt store for claim precheck", failure),
        ),
        ClaimProbe::StoreClosed(failure) => Err(
            failed_at("open private receipt store for claim precheck", failure),
        ),
        ClaimProbe::NoClaim(holds) => match holds {
            Err(failure) => Err(
                failed_at("enumerate private receipt store for claim precheck", failure),
            ),
            Ok(true) => Err(ProjectionStoreError::ClaimlessNonemptyStore),
            Ok(false) => Ok(()),
        },
        ClaimProbe::ClaimUnknown(failure) => Err(
            failed_at("read private receipt store claim", failure),
        ),
        ClaimProbe::NotAFile => Err(ProjectionStoreError::MalformedStoreClaim),
        ClaimProbe::Claim(read) => match read {
            Err(failure) => Err(failed_at("read private receipt store claim", failure)),
            Ok(bytes) => precheck(bytes@),
        },
    }
}

/// Refuses a store that cannot be opened, from what looking for its claim gave, before anything
/// is written.
pub fn precheck_authoritative_claim(probe: ClaimProbe) -> (checked: Result<(), ProjectionStoreError>)
    ensures
        checked == probe_verdict(probe),
{
    match probe {
        ClaimProbe::NoStore => Ok(()),
        ClaimProbe::StoreUnknown(failure) => Err(
            fail_at("inspect private receipt store for claim precheck", failure),
        ),
        ClaimProbe::StoreClosed(failure) => Err(
            fail_at("open private receipt store for claim precheck", failure),
        ),
        ClaimProbe::NoClaim(holds) => match holds {
            Err(failure) => Err(
                fail_at("enumerate private receipt store for claim precheck", failure),
            ),
            Ok(holds) => if holds {
                Err(ProjectionStoreError::ClaimlessNonemptyStore)
            } else {
                Ok(())
            },
        },
        ClaimProbe::ClaimUnknown(failure) => Err(
            fail_at("read private receipt store claim", failure),
        ),
        ClaimProbe::NotAFile => Err(ProjectionStoreError::MalformedStoreClaim),
        ClaimProbe::Claim(read) => match read {
            Err(failure) => Err(fail_at("read private receipt store claim", failure)),
            Ok(bytes) => classify_precheck_claim(bytes.as_slice()),
        },
    }
}

/// The bytes that an identifier is derived from: a domain with a zero byte behind it, a store and
/// an intent.
pub open spec fn derivation_input(
    domain: Seq<char>,
    store_id: ProjectionReceiptStoreId,
    intent_id: ProjectionIntentId,
) -> Seq<u8> {
    vstd::utf8::encode_utf8(domain).push(0u8) + store_id.digest.spec_bytes() + intent_id.digest.spec_bytes()
}

/// The first sixteen bytes of a digest as an identifier of application-defined bytes: the version
/// is eight and the variant is the standard one.
pub open spec fn marked_uuid_bytes(digest: Seq<u8>) -> Seq<u8> {
    digest.take(16).update(6, (digest[6] & 0x0f) | 0x80).update(8, (digest[8] & 0x3f) | 0x80)
}

/// The identifier derived from a domain, a store and an intent.
pub fn deterministic_mutation_uuid(
    domain: &str,
    store_id: ProjectionReceiptStoreId,
    intent_id: ProjectionIntentId,
) -> (id: Uuid)
    ensures
        id.spec_bytes() == marked_uuid_bytes(
            crate::hash::sha256(derivation_input(domain@, store_id, intent_id)),
        ),
{
    let mut input: Vec<u8> = Vec::new();
    push_bytes(&mut input, domain.as_bytes());
    input.push(0);
    push_bytes(&mut input, store_id.digest.to_bytes().as_slice());
    push_bytes(&mut input, intent_id.digest.to_bytes().as_slice());
    assert(input@ =~= derivation_input(domain@, store_id, intent_id));
    let digest = Digest::of(input.as_slice());
    proof {
        digest.lemma_bytes();
    }
    let whole = digest.to_bytes();
    let mut bytes = crate::bytes::copy_range(whole.as_slice(), 0, 16);
    assert(bytes@ =~= whole@.take(16));
    let version: u8 = (whole[6] & 0x0f) | 0x80;
    let variant: u8 = (whole[8] & 0x3f) | 0x80;
    bytes.set(6, version);
    bytes.set(8, variant);
    assert(bytes@ =~= marked_uuid_bytes(whole@));
    Uuid::from_bytes(bytes.as_slice())
}

/// The bytes that the identity of a directory is derived from: a domain with a zero byte behind
/// it, the volume and the file.
pub open spec fn directory_identity_input(domain: Seq<char>, volume: u64, file: Seq<u8>) -> Seq<u8> {
    vstd::utf8::encode_utf8(domain).push(0u8) + be_bytes(volume as nat, 8) + file
}

/// Derives the identity of a directory.
fn directory_identity(domain: &str, volume: u64, file: &[u8]) -> (identity: Digest)
    ensures
        identity.spec_bytes() == crate::hash::sha256(
            directory_identity_input(domain@, volume, file@),
        ),
{
    let mut input: Vec<u8> = Vec::new();
    push_bytes(&mut input, domain.as_bytes());
    input.push(0);
    push_be(&mut input, volume as u128, 8);
    push_bytes(&mut input, file);
    assert(input@ =~= directory_identity_input(domain@, volume, file@));
    Digest::of(input.as_slice())
}

/// The identity of a directory on a system with device and file numbers.
pub fn unix_directory_identity(device: u64, inode: u64) -> (identity: Digest)
    ensures
        identity.spec_bytes() == crate::hash::sha256(
            directory_identity_input(
                "tine/projection-directory-identity/unix-v1"@,
                device,
                be_bytes(inode as nat, 8),
            ),
        ),
{
    let mut file: Vec<u8> = Vec::new();
    push_be(&mut file, inode as u128, 8);
    assert(file@ =~= be_bytes(inode as nat, 8));
    directory_identity("tine/projection-directory-identity/unix-v1", device, file.as_slice())
}

/// The identity of a directory on a system with volume serial numbers and file identifiers.
pub fn windows_directory_identity(volume: u64, file: &[u8]) -> (identity: Digest)
    ensures
        identity.spec_bytes() == crate::hash::sha256(
            directory_identity_input(
                "tine/projection-directory-identity/windows-v1"@,
                volume,
                file@,
            ),
        ),
{
    directory_identity("tine/projection-directory-identity/windows-v1", volume, file)
}

} // verus!
