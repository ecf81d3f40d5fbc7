//! The outline document of a page: every block in outline order, with its position and the exact
//! text that it has in the file.

use std::collections::{HashMap, HashSet};

use vstd::prelude::*;

use crate::bytes::copy_bytes;
use crate::error::ProjectionError;
use crate::forest::{as_ints, forest_fault, siblings_of, ValidatedForest};
use crate::ids::{uuid_parsed, BlockId, LogseqUuid, Uuid};
use crate::inject::{inject_logseq_id, injected, ProjectionFormat};
use crate::order::copy_words;
use crate::page::{
    copy_optional_text, optional_text, LogseqIdentityOrigin, MaterializedBlock, MaterializedPage,
};
use crate::path::has_extension;
use crate::text::{is_ascii_case_of, same_ascii_case, trim_text, trimmed};

verus! {

broadcast use vstd::std_specs::hash::group_hash_axioms;

/// The format of a page, by the extension of its path.
pub open spec fn page_format(page: MaterializedPage) -> Result<ProjectionFormat, ProjectionError> {
    if has_extension(page.path.text@, ".md"@) || has_extension(page.path.text@, ".markdown"@) {
        Ok(ProjectionFormat::Markdown)
    } else if has_extension(page.path.text@, ".org"@) {
        Ok(ProjectionFormat::Org)
    } else {
        Err(ProjectionError::UnsupportedFormat(page.path.text))
    }
}

/// The format of a page, by the extension of its path.
pub fn format_for_page(page: &MaterializedPage) -> (format: Result<
    ProjectionFormat,
    ProjectionError,
>)
    ensures
        format == page_format(*page),
{
    if page.path.is_markdown() {
        Ok(ProjectionFormat::Markdown)
    } else if page.path.is_org() {
        Ok(ProjectionFormat::Org)
    } else {
        Err(ProjectionError::UnsupportedFormat(page.path.text.clone()))
    }
}

/// Which blocks write an identity in their own text.
pub enum RawOwner {
    Nobody,
    Only(BlockId),
    Several,
}

/// The owners of an identity with one more of them.
pub open spec fn add_owner(owner: RawOwner, block: BlockId) -> RawOwner {
    match owner {
        RawOwner::Nobody => RawOwner::Only(block),
        _ => RawOwner::Several,
    }
}

/// The identity that a property writes: the value of an `id` property, if it is one.
pub open spec fn property_id(property: (String, String)) -> Option<u128> {
    if is_ascii_case_of(property.0@, "id"@) {
        uuid_parsed(trimmed(property.1@))
    } else {
        None
    }
}

/// The owners of an identity after the first `n` properties of a block.
pub open spec fn owner_in_block(
    owner: RawOwner,
    block: MaterializedBlock,
    n: nat,
    uuid: u128,
) -> RawOwner
    decreases n,
{
    if n == 0 {
        owner
    } else {
        let before = owner_in_block(owner, block, (n - 1) as nat, uuid);
        if property_id(block.parsed.properties@[n - 1]) == Some(uuid) {
            add_owner(before, block.block_id)
        } else {
            before
        }
    }
}

/// The owners of an identity among the first `n` blocks.
pub open spec fn owner_among(blocks: Seq<MaterializedBlock>, n: nat, uuid: u128) -> RawOwner
    decreases n,
{
    if n == 0 {
        RawOwner::Nobody
    } else {
        owner_in_block(
            owner_among(blocks, (n - 1) as nat, uuid),
            blocks[n - 1],
            blocks[n - 1].parsed.properties@.len(),
            uuid,
        )
    }
}

/// The owners of an identity.
pub open spec fn raw_owner(blocks: Seq<MaterializedBlock>, uuid: LogseqUuid) -> RawOwner {
    owner_among(blocks, blocks.len(), uuid.uuid.value)
}

/// The identities that blocks write in their own text, each with its only owner, or with nothing
/// where it has several.
pub struct RawIdOwners {
    owners: HashMap<u128, Option<u128>>,
}

/// What an index of owners says of an identity.
spec fn indexed_owner(owners: Map<u128, Option<u128>>, uuid: u128) -> RawOwner {
    if !owners.dom().contains(uuid) {
        RawOwner::Nobody
    } else {
        match owners[uuid] {
            Some(value) => RawOwner::Only(BlockId { uuid: Uuid { value } }),
            None => RawOwner::Several,
        }
    }
}

impl RawIdOwners {
    /// Whether this indexes the identities of the given blocks.
    pub closed spec fn wf(self, blocks: Seq<MaterializedBlock>) -> bool {
        forall|uuid: u128|
            indexed_owner(self.owners@, uuid) == #[trigger] owner_among(blocks, blocks.len(), uuid)
    }

    /// Whether a block is the only owner of an identity, and whether anybody owns it.
    fn owner_of(&self, uuid: LogseqUuid, block: BlockId) -> (owned: (bool, bool))
        ensures
            forall|blocks: Seq<MaterializedBlock>| #[trigger]
                self.wf(blocks) ==> owned.0 == (raw_owner(blocks, uuid) == RawOwner::Only(block))
                    && owned.1 == !(raw_owner(blocks, uuid) is Nobody),
    {
        match self.owners.get(&uuid.uuid.value) {
            None => {
                proof {
                    assert forall|blocks: Seq<MaterializedBlock>| #[trigger]
                        self.wf(blocks) implies raw_owner(blocks, uuid) is Nobody by {
                        assert(indexed_owner(self.owners@, uuid.uuid.value) == owner_among(
                            blocks,
                            blocks.len(),
                            uuid.uuid.value,
                        ));
                    }
                }
                (false, false)
            },
            Some(owner) => {
                let only = match *owner {
                    Some(value) => value == block.uuid.value,
                    None => false,
                };
                proof {
                    assert forall|blocks: Seq<MaterializedBlock>| #[trigger]
                        self.wf(blocks) implies only == (raw_owner(blocks, uuid) == RawOwner::Only(
                        block,
                    )) && !(raw_owner(blocks, uuid) is Nobody) by {
                        assert(indexed_owner(self.owners@, uuid.uuid.value) == owner_among(
                            blocks,
                            blocks.len(),
                            uuid.uuid.value,
                        ));
                    }
                }
                (only, true)
            },
        }
    }
}

/// The identity that a property writes.
fn read_property_id(property: &(String, String)) -> (uuid: Option<u128>)
    ensures
        uuid == property_id(*property),
{
    if same_ascii_case(property.0.as_str(), "id") {
        let value = trim_text(property.1.as_str());
        match Uuid::parse_str(value.as_str()) {
            Some(uuid) => Some(uuid.value),
            None => None,
        }
    } else {
        None
    }
}

/// Collects the identities that blocks write in their own text.
pub fn collect_raw_logseq_ids(blocks: &Vec<MaterializedBlock>) -> (raw: RawIdOwners)
    ensures
        raw.wf(blocks@),
{
    let mut owners: HashMap<u128, Option<u128>> = HashMap::new();
    let mut at: usize = 0;
    while at < blocks.len()
        invariant
            at <= blocks@.len(),
            forall|uuid: u128|
                indexed_owner(owners@, uuid) == #[trigger] owner_among(blocks@, at as nat, uuid),
        decreases blocks@.len() - at,
    {
        let block = &blocks[at];
        let ghost start = owners@;
        let mut next: usize = 0;
        assert forall|uuid: u128| indexed_owner(owners@, uuid) == #[trigger] owner_in_block(
            owner_among(blocks@, at as nat, uuid),
            *block,
            0,
            uuid,
        ) by {
            assert(indexed_owner(owners@, uuid) == owner_among(blocks@, at as nat, uuid));
        }
        while next < block.parsed.properties.len()
            invariant
                next <= block.parsed.properties@.len(),
                at < blocks@.len(),
                *block == blocks@[at as int],
                forall|uuid: u128|
                    indexed_owner(owners@, uuid) == #[trigger] owner_in_block(
                        owner_among(blocks@, at as nat, uuid),
                        *block,
                        next as nat,
                        uuid,
                    ),
            decreases block.parsed.properties@.len() - next,
        {
            let ghost before = owners@;
            let written = read_property_id(&block.parsed.properties[next]);
            if let Some(value) = written {
                let entry: Option<u128> = if owners.contains_key(&value) {
                    None
                } else {
                    Some(block.block_id.uuid.value)
                };
                owners.insert(value, entry);
            }
            proof {
                assert forall|uuid: u128| indexed_owner(owners@, uuid) == #[trigger] owner_in_block(
                    owner_among(blocks@, at as nat, uuid),
                    *block,
                    (next + 1) as nat,
                    uuid,
                ) by {
                    assert(indexed_owner(before, uuid) == owner_in_block(
                        owner_among(blocks@, at as nat, uuid),
                        *block,
                        next as nat,
                        uuid,
                    ));
                    assert(written == property_id(block.parsed.properties@[next as int]));
                }
            }
            next += 1;
        }
        proof {
            assert forall|uuid: u128| indexed_owner(owners@, uuid) == #[trigger] owner_among(
                blocks@,
                (at + 1) as nat,
                uuid,
            ) by {
                assert(indexed_owner(owners@, uuid) == owner_in_block(
                    owner_among(blocks@, at as nat, uuid),
                    *block,
                    next as nat,
                    uuid,
                ));
            }
        }
        at += 1;
    }
    RawIdOwners { owners }
}

/// What is wrong with the identity of block `i`: it has one without an origin or an origin without
/// one, another block has it too, or some other block writes it in its text.
pub open spec fn identity_fault(blocks: Seq<MaterializedBlock>, i: int) -> Option<ProjectionError> {
    let block = blocks[i];
    if block.logseq_uuid is Some != block.logseq_identity_origin is Some {
        Some(ProjectionError::InconsistentLogseqIdentityOrigin(block.block_id))
    } else {
        match block.logseq_uuid {
            None => None,
            Some(uuid) => if exists|j: int|
                0 <= j < i && (#[trigger] blocks[j]).logseq_uuid == Some(uuid) {
                Some(ProjectionError::DuplicateLogseqClaim(uuid))
            } else {
                match raw_owner(blocks, uuid) {
                    RawOwner::Nobody => None,
                    RawOwner::Only(owner) => if owner == block.block_id {
                        None
                    } else {
                        Some(ProjectionError::AmbiguousRawLogseqId(uuid))
                    },
                    RawOwner::Several => Some(ProjectionError::AmbiguousRawLogseqId(uuid)),
                }
            },
        }
    }
}

/// What is wrong with the first faulty identity among the first `n` blocks.
pub open spec fn identities_fault(blocks: Seq<MaterializedBlock>, n: nat) -> Option<ProjectionError>
    decreases n,
{
    if n == 0 {
        None
    } else {
        match identities_fault(blocks, (n - 1) as nat) {
            Some(error) => Some(error),
            None => identity_fault(blocks, n - 1),
        }
    }
}

/// A fault among the first identities is the fault of all of them.
proof fn lemma_identities_fault_stays(blocks: Seq<MaterializedBlock>, k: nat, n: nat)
    requires
        k <= n,
        identities_fault(blocks, k) is Some,
    ensures
        identities_fault(blocks, n) == identities_fault(blocks, k),
    decreases n,
{
    if k < n {
        lemma_identities_fault_stays(blocks, k, (n - 1) as nat);
    }
}

/// Checks the identities of the blocks against each other and against what the texts write.
pub fn validate_logseq_state(blocks: &Vec<MaterializedBlock>, raw_ids: &RawIdOwners) -> (checked:
    Result<(), ProjectionError>)
    requires
        raw_ids.wf(blocks@),
    ensures
        match identities_fault(blocks@, blocks@.len()) {
            Some(error) => checked == Err::<(), _>(error),
            None => checked == Ok::<(), ProjectionError>(()),
        },
{
    let mut claims: HashSet<u128> = HashSet::new();
    let mut at: usize = 0;
    while at < blocks.len()
        invariant
            at <= blocks@.len(),
            raw_ids.wf(blocks@),
            identities_fault(blocks@, at as nat) is None,
            forall|value: u128|
                #[trigger] claims@.contains(value) <==> exists|j: int|
                    0 <= j < at && (#[trigger] blocks@[j]).logseq_uuid is Some
                        && blocks@[j].logseq_uuid->0.uuid.value == value,
        decreases blocks@.len() - at,
    {
        let block = &blocks[at];
        let ghost before = claims@;
        proof {
            assert(identities_fault(blocks@, (at + 1) as nat) == identity_fault(blocks@, at as int));
            if identity_fault(blocks@, at as int) is Some {
                lemma_identities_fault_stays(blocks@, (at + 1) as nat, blocks@.len());
            }
        }
        if block.logseq_uuid.is_some() != block.logseq_identity_origin.is_some() {
            return Err(ProjectionError::InconsistentLogseqIdentityOrigin(block.block_id));
        }
        if let Some(uuid) = block.logseq_uuid {
            if !claims.insert(uuid.uuid.value) {
                proof {
                    let j = choose|j: int|
                        0 <= j < at && (#[trigger] blocks@[j]).logseq_uuid is Some
                            && blocks@[j].logseq_uuid->0.uuid.value == uuid.uuid.value;
                    assert(blocks@[j].logseq_uuid == Some(uuid));
                }
                return Err(ProjectionError::DuplicateLogseqClaim(uuid));
            }
            let owned = raw_ids.owner_of(uuid, block.block_id);
            if owned.1 && !owned.0 {
                return Err(ProjectionError::AmbiguousRawLogseqId(uuid));
            }
        }
        at += 1;
        proof {
            assert forall|value: u128| #[trigger] claims@.contains(value) <==> exists|j: int|
                0 <= j < at && (#[trigger] blocks@[j]).logseq_uuid is Some
                    && blocks@[j].logseq_uuid->0.uuid.value == value by {
                if blocks@[at - 1].logseq_uuid is Some && blocks@[at - 1].logseq_uuid->0.uuid.value
                    == value {
                    assert(claims@.contains(value));
                }
            }
        }
    }
    Ok(())
}

/// A block of the document: its position, its identities and its exact text, and whether a policy
/// put the written identity there.
#[derive(Clone, Debug, PartialEq, Eq)]
pub struct DocBlock {
    pub locator: Vec<u32>,
    pub block_id: BlockId,
    pub logseq_uuid: Option<LogseqUuid>,
    pub raw: Vec<u8>,
    pub generated: bool,
}

/// What a block of the document says.
pub struct DocBlockView {
    pub locator: Seq<u32>,
    pub block_id: BlockId,
    pub logseq_uuid: Option<LogseqUuid>,
    pub raw: Seq<u8>,
    pub generated: bool,
}

impl View for DocBlock {
    type V = DocBlockView;

    open spec fn view(&self) -> DocBlockView {
        DocBlockView {
            locator: self.locator@,
            block_id: self.block_id,
            logseq_uuid: self.logseq_uuid,
            raw: self.raw@,
            generated: self.generated,
        }
    }
}

/// What a list of document blocks says.
pub open spec fn doc_views(blocks: Seq<DocBlock>) -> Seq<DocBlockView> {
    blocks.map_values(|block: DocBlock| block@)
}

/// The text of a block in the file, the identity written in it, and whether a policy put that
/// there; or why the block cannot be projected.
pub open spec fn projected_content(
    blocks: Seq<MaterializedBlock>,
    block: MaterializedBlock,
    format: ProjectionFormat,
) -> Result<(Seq<u8>, Option<LogseqUuid>, bool), ProjectionError> {
    match (block.logseq_uuid, block.logseq_identity_origin) {
        (None, None) => Ok((block.content@, None, false)),
        (Some(uuid), Some(origin)) => match raw_owner(blocks, uuid) {
            RawOwner::Only(owner) => if owner == block.block_id {
                Ok((block.content@, Some(uuid), false))
            } else {
                Err(ProjectionError::AmbiguousRawLogseqId(uuid))
            },
            RawOwner::Several => Err(ProjectionError::AmbiguousRawLogseqId(uuid)),
            RawOwner::Nobody => if origin is ExternalImported {
                Err(
                    ProjectionError::MissingExternalRawLogseqId {
                        block: block.block_id,
                        logseq_uuid: uuid,
                    },
                )
            } else {
                match injected(block.content@, block.parsed.drawer, format, uuid) {
                    Ok(text) => Ok((text, Some(uuid), true)),
                    Err(error) => Err(error),
                }
            },
        },
        _ => Err(ProjectionError::InconsistentLogseqIdentityOrigin(block.block_id)),
    }
}

/// The text of a block in the file, the identity written in it, and whether a policy put that
/// there.
pub fn project_block_content(
    blocks: &Vec<MaterializedBlock>,
    block: &MaterializedBlock,
    format: ProjectionFormat,
    raw_ids: &RawIdOwners,
) -> (projected: Result<(Vec<u8>, Option<LogseqUuid>, bool), ProjectionError>)
    requires
        raw_ids.wf(blocks@),
    ensures
        match projected_content(blocks@, *block, format) {
            Ok(content) => projected is Ok && projected->Ok_0.0@ == content.0
                && projected->Ok_0.1 == content.1 && projected->Ok_0.2 == content.2,
            Err(error) => projected == Err::<(Vec<u8>, Option<LogseqUuid>, bool), _>(error),
        },
{
    match (block.logseq_uuid, block.logseq_identity_origin) {
        (None, None) => Ok((copy_bytes(block.content.as_slice()), None, false)),
        (Some(uuid), Some(origin)) => {
            let owned = raw_ids.owner_of(uuid, block.block_id);
            if owned.0 {
                return Ok((copy_bytes(block.content.as_slice()), Some(uuid), false));
            }
            if owned.1 {
                return Err(ProjectionError::AmbiguousRawLogseqId(uuid));
            }
            match origin {
                LogseqIdentityOrigin::ExternalImported => Err(
                    ProjectionError::MissingExternalRawLogseqId {
                        block: block.block_id,
                        logseq_uuid: uuid,
                    },
                ),
                LogseqIdentityOrigin::PolicyGenerated { .. } => {
                    match inject_logseq_id(
                        block.content.as_slice(),
                        block.parsed.drawer,
                        format,
                        uuid,
                    ) {
                        Ok(text) => Ok((text, Some(uuid), true)),
                        Err(error) => Err(error),
                    }
                },
            }
        },
        _ => Err(ProjectionError::InconsistentLogseqIdentityOrigin(block.block_id)),
    }
}

/// Block `i` and everything below it in outline order, or why that cannot be projected.
pub open spec fn projected_subtree(
    blocks: Seq<MaterializedBlock>,
    format: ProjectionFormat,
    i: int,
    locator: Seq<u32>,
    depth: nat,
) -> Result<Seq<DocBlockView>, ProjectionError>
    decreases depth, 0nat,
{
    if depth == 0 {
        Ok(Seq::empty())
    } else {
        match projected_content(blocks, blocks[i], format) {
            Err(error) => Err(error),
            Ok(content) => {
                let children = siblings_of(blocks, Some(blocks[i].block_id));
                match projected_siblings(
                    blocks,
                    format,
                    children,
                    children.len(),
                    locator,
                    (depth - 1) as nat,
                ) {
                    Err(error) => Err(error),
                    Ok(below) => Ok(
                        seq![
                            DocBlockView {
                                locator,
                                block_id: blocks[i].block_id,
                                logseq_uuid: content.1,
                                raw: content.0,
                                generated: content.2,
                            },
                        ] + below,
                    ),
                }
            },
        }
    }
}

/// The first `n` of some siblings and everything below them in outline order, or why that cannot
/// be projected.
pub open spec fn projected_siblings(
    blocks: Seq<MaterializedBlock>,
    format: ProjectionFormat,
    siblings: Seq<int>,
    n: nat,
    locator: Seq<u32>,
    depth: nat,
) -> Result<Seq<DocBlockView>, ProjectionError>
    decreases depth, n,
{
    if n == 0 {
        Ok(Seq::empty())
    } else {
        match projected_siblings(blocks, format, siblings, (n - 1) as nat, locator, depth) {
            Err(error) => Err(error),
            Ok(before) => if n - 1 > u32::MAX {
                Err(ProjectionError::TreeTooWide)
            } else {
                match projected_subtree(
                    blocks,
                    format,
                    siblings[n - 1],
                    locator.push((n - 1) as u32),
                    depth,
                ) {
                    Err(error) => Err(error),
                    Ok(subtree) => Ok(before + subtree),
                }
            },
        }
    }
}

/// The blocks of a page in outline order, or why the page cannot be projected.
pub open spec fn projected_blocks(blocks: Seq<MaterializedBlock>, format: ProjectionFormat) -> Result<
    Seq<DocBlockView>,
    ProjectionError,
> {
    match forest_fault(blocks) {
        Some(error) => Err(error),
        None => match identities_fault(blocks, blocks.len()) {
            Some(error) => Err(error),
            None => {
                let roots = siblings_of(blocks, None);
                projected_siblings(
                    blocks,
                    format,
                    roots,
                    roots.len(),
                    Seq::empty(),
                    blocks.len(),
                )
            },
        },
    }
}

/// An error among the first siblings is the error of all of them.
proof fn lemma_siblings_error_stays(
    blocks: Seq<MaterializedBlock>,
    format: ProjectionFormat,
    siblings: Seq<int>,
    k: nat,
    n: nat,
    locator: Seq<u32>,
    depth: nat,
)
    requires
        k <= n,
        projected_siblings(blocks, format, siblings, k, locator, depth) is Err,
    ensures
        projected_siblings(blocks, format, siblings, n, locator, depth) == projected_siblings(
            blocks,
            format,
            siblings,
            k,
            locator,
            depth,
        ),
    decreases n,
{
    if k < n {
        lemma_siblings_error_stays(
            blocks,
            format,
            siblings,
            k,
            (n - 1) as nat,
            locator,
            depth,
        );
    }
}

/// The outline document of a page.
#[derive(Clone, Debug, PartialEq, Eq)]
pub struct Document {
    pub pre_block: Option<Vec<u8>>,
    pub blocks: Vec<DocBlock>,
}

/// Whether a document is that of a page.
pub open spec fn is_document_of(
    document: Document,
    page: MaterializedPage,
    blocks: Seq<DocBlockView>,
) -> bool {
    &&& optional_text(document.pre_block) == optional_text(page.preamble)
    &&& doc_views(document.blocks@) == blocks
}

/// Appends block `i` and everything below it.
fn build_doc_block(
    blocks: &Vec<MaterializedBlock>,
    forest: &ValidatedForest,
    index: usize,
    locator: Vec<u32>,
    format: ProjectionFormat,
    raw_ids: &RawIdOwners,
    depth: usize,
    out: &mut Vec<DocBlock>,
) -> (built: Result<(), ProjectionError>)
    requires
        index < blocks@.len(),
        forest.wf(blocks@),
        raw_ids.wf(blocks@),
    ensures
        match projected_subtree(blocks@, format, index as int, locator@, depth as nat) {
            Ok(subtree) => built is Ok && doc_views(final(out)@) == doc_views(old(out)@) + subtree,
            Err(error) => built == Err::<(), _>(error),
        },
    decreases depth, 0nat,
{
    if depth == 0 {
        assert(doc_views(out@) =~= doc_views(old(out)@) + Seq::<DocBlockView>::empty());
        return Ok(());
    }
    let block = &blocks[index];
    let (raw, logseq_uuid, generated) = match project_block_content(
        blocks,
        block,
        format,
        raw_ids,
    ) {
        Ok(projected) => projected,
        Err(error) => return Err(error),
    };
    let below_locator = copy_words(locator.as_slice());
    let entry = DocBlock { locator, block_id: block.block_id, logseq_uuid, raw, generated };
    let ghost before = out@;
    out.push(entry);
    assert(doc_views(out@) =~= doc_views(before) + seq![entry@]);
    let built = build_siblings(
        blocks,
        forest,
        &forest.children[index],
        &below_locator,
        format,
        raw_ids,
        depth - 1,
        out,
    );
    proof {
        let below = projected_siblings(
            blocks@,
            format,
            siblings_of(blocks@, Some(block.block_id)),
            siblings_of(blocks@, Some(block.block_id)).len(),
            below_locator@,
            (depth - 1) as nat,
        );
        if below is Ok {
            assert(doc_views(out@) =~= doc_views(before) + (seq![entry@] + below->Ok_0));
        }
    }
    built
}

/// Appends siblings and everything below them.
fn build_siblings(
    blocks: &Vec<MaterializedBlock>,
    forest: &ValidatedForest,
    siblings: &Vec<usize>,
    locator: &Vec<u32>,
    format: ProjectionFormat,
    raw_ids: &RawIdOwners,
    depth: usize,
    out: &mut Vec<DocBlock>,
) -> (built: Result<(), ProjectionError>)
    requires
        forest.wf(blocks@),
        raw_ids.wf(blocks@),
        exists|parent: Option<BlockId>| as_ints(siblings@) == siblings_of(blocks@, parent),
    ensures
        match projected_siblings(
            blocks@,
            format,
            as_ints(siblings@),
            siblings@.len(),
            locator@,
            depth as nat,
        ) {
            Ok(below) => built is Ok && doc_views(final(out)@) == doc_views(old(out)@) + below,
            Err(error) => built == Err::<(), _>(error),
        },
    decreases depth, 1nat,
{
    let ghost all = as_ints(siblings@);
    proof {
        let parent = choose|parent: Option<BlockId>| all == siblings_of(blocks@, parent);
        crate::forest::lemma_siblings_range(blocks@, parent, blocks@.len());
        assert forall|k: int| 0 <= k < siblings@.len() implies (#[trigger] siblings@[k])
            < blocks@.len() by {
            assert(all[k] == siblings@[k]);
        }
        assert(doc_views(out@) =~= doc_views(old(out)@) + Seq::<DocBlockView>::empty());
    }
    let mut at: usize = 0;
    while at < siblings.len()
        invariant
            at <= siblings@.len(),
            all == as_ints(siblings@),
            forest.wf(blocks@),
            raw_ids.wf(blocks@),
            forall|k: int| 0 <= k < siblings@.len() ==> (#[trigger] siblings@[k]) < blocks@.len(),
            projected_siblings(blocks@, format, all, at as nat, locator@, depth as nat) is Ok,
            doc_views(out@) == doc_views(old(out)@) + projected_siblings(
                blocks@,
                format,
                all,
                at as nat,
                locator@,
                depth as nat,
            )->Ok_0,
        decreases siblings@.len() - at,
    {
        let ghost done = projected_siblings(
            blocks@,
            format,
            all,
            at as nat,
            locator@,
            depth as nat,
        )->Ok_0;
        let ghost next = projected_siblings(
            blocks@,
            format,
            all,
            (at + 1) as nat,
            locator@,
            depth as nat,
        );
        proof {
            if next is Err {
                lemma_siblings_error_stays(
                    blocks@,
                    format,
                    all,
                    (at + 1) as nat,
                    siblings@.len(),
                    locator@,
                    depth as nat,
                );
            }
        }
        if at as u128 > u32::MAX as u128 {
            return Err(ProjectionError::TreeTooWide);
        }
        let mut child_locator = copy_words(locator.as_slice());
        child_locator.push(at as u32);
        assert(child_locator@ =~= locator@.push(at as u32));
        assert(all[at as int] == siblings@[at as int]);
        if let Err(error) = build_doc_block(
            blocks,
            forest,
            siblings[at],
            child_locator,
            format,
            raw_ids,
            depth,
            out,
        ) {
            return Err(error);
        }
        proof {
            let subtree = projected_subtree(
                blocks@,
                format,
                all[at as int],
                locator@.push(at as u32),
                depth as nat,
            )->Ok_0;
            assert(doc_views(out@) =~= doc_views(old(out)@) + (done + subtree));
        }
        at += 1;
    }
    Ok(())
}

/// The outline document of a page, or why the page cannot be projected.
pub fn build_page_document(page: &MaterializedPage, format: ProjectionFormat) -> (document: Result<
    Document,
    ProjectionError,
>)
    ensures
        match projected_blocks(page.blocks@, format) {
            Ok(blocks) => document is Ok && is_document_of(document->Ok_0, *page, blocks),
            Err(error) => document == Err::<Document, _>(error),
        },
{
    let forest = match ValidatedForest::new(&page.blocks) {
        Ok(forest) => forest,
        Err(error) => return Err(error),
    };
    let raw_ids = collect_raw_logseq_ids(&page.blocks);
    if let Err(error) = validate_logseq_state(&page.blocks, &raw_ids) {
        return Err(error);
    }
    let mut blocks: Vec<DocBlock> = Vec::new();
    let locator: Vec<u32> = Vec::new();
    assert(locator@ =~= Seq::<u32>::empty());
    assert(as_ints(forest.roots@) == siblings_of(page.blocks@, None));
    if let Err(error) = build_siblings(
        &page.blocks,
        &forest,
        &forest.roots,
        &locator,
        format,
        &raw_ids,
        page.blocks.len(),
        &mut blocks,
    ) {
        return Err(error);
    }
    assert(doc_views(blocks@) =~= projected_blocks(page.blocks@, format)->Ok_0);
    Ok(Document { pre_block: copy_optional_text(&page.preamble), blocks })
}

/// Every position below a locator is longer than that locator.
pub proof fn lemma_subtree_locators(
    blocks: Seq<MaterializedBlock>,
    format: ProjectionFormat,
    i: int,
    locator: Seq<u32>,
    depth: nat,
)
    requires
        projected_subtree(blocks, format, i, locator, depth) is Ok,
    ensures
        forall|k: int|
            0 <= k < projected_subtree(blocks, format, i, locator, depth)->Ok_0.len() ==> (
            #[trigger] projected_subtree(
                blocks,
                format,
                i,
                locator,
                depth,
            )->Ok_0[k]).locator.len() >= locator.len(),
    decreases depth, 0nat,
{
    if depth > 0 {
        let children = siblings_of(blocks, Some(blocks[i].block_id));
        lemma_siblings_locators(
            blocks,
            format,
            children,
            children.len(),
            locator,
            (depth - 1) as nat,
        );
    }
}

/// Every position of a sibling, or below one, is longer than the siblings' common locator.
pub proof fn lemma_siblings_locators(
    blocks: Seq<MaterializedBlock>,
    format: ProjectionFormat,
    siblings: Seq<int>,
    n: nat,
    locator: Seq<u32>,
    depth: nat,
)
    requires
        projected_siblings(blocks, format, siblings, n, locator, depth) is Ok,
    ensures
        forall|k: int|
            0 <= k < projected_siblings(blocks, format, siblings, n, locator, depth)->Ok_0.len()
                ==> (#[trigger] projected_siblings(
                blocks,
                format,
                siblings,
                n,
                locator,
                depth,
            )->Ok_0[k]).locator.len() > locator.len(),
    decreases depth, n,
{
    if n > 0 {
        lemma_siblings_locators(blocks, format, siblings, (n - 1) as nat, locator, depth);
        lemma_subtree_locators(
            blocks,
            format,
            siblings[n - 1],
            locator.push((n - 1) as u32),
            depth,
        );
    }
}

} // verus!
