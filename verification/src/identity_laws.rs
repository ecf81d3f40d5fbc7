//! What the identities of a page's blocks must be, and what becomes of them in the text.

use vstd::prelude::*;

use crate::document::{
    identities_fault, identity_fault, owner_among, owner_in_block, projected_content, property_id,
    raw_owner, RawOwner,
};
use crate::document_laws::lemma_identity_at;
use crate::error::ProjectionError;
use crate::ids::{uuid_parsed, BlockId, LogseqUuid};
use crate::inject::{injected, ProjectionFormat};
use crate::inject_laws::is_white_point;
use crate::page::MaterializedBlock;
use crate::text::{is_ascii_case_of, is_white_space, lead_end, tail_start, trimmed};

verus! {

/// Whether a property of block `j` writes an identity, of the first `n` blocks and the first `m`
/// properties of the next.
spec fn writes_among(
    blocks: Seq<MaterializedBlock>,
    n: int,
    m: int,
    uuid: u128,
    j: int,
    p: int,
) -> bool {
    &&& 0 <= j < blocks.len()
    &&& 0 <= p < blocks[j].parsed.properties@.len()
    &&& j < n || (j == n && p < m)
    &&& property_id(blocks[j].parsed.properties@[p]) == Some(uuid)
}

/// Whether property `p` of block `j` writes an identity.
pub open spec fn writes_identity(
    blocks: Seq<MaterializedBlock>,
    uuid: LogseqUuid,
    j: int,
    p: int,
) -> bool {
    &&& 0 <= j < blocks.len()
    &&& 0 <= p < blocks[j].parsed.properties@.len()
    &&& property_id(blocks[j].parsed.properties@[p]) == Some(uuid.uuid.value)
}

/// Whether an owner is what the properties looked at so far make it.
spec fn is_owner_among(
    blocks: Seq<MaterializedBlock>,
    n: int,
    m: int,
    uuid: u128,
    owner: RawOwner,
) -> bool {
    match owner {
        RawOwner::Nobody => forall|j: int, p: int| !writes_among(blocks, n, m, uuid, j, p),
        RawOwner::Only(id) => exists|j: int, p: int| #[trigger]
            writes_among(blocks, n, m, uuid, j, p) && blocks[j].block_id == id && forall|
                i: int,
                q: int,
            | #[trigger]
                writes_among(blocks, n, m, uuid, i, q) ==> i == j && q == p,
        RawOwner::Several => exists|j: int, p: int, i: int, q: int|
            #![trigger
                writes_among(blocks, n, m, uuid, j, p),
                writes_among(blocks,
                n,
                m,
                uuid,
                i,
                q)
            ]
            writes_among(blocks, n, m, uuid, j, p) && writes_among(blocks, n, m, uuid, i, q) && (j
                != i || p != q),
    }
}

/// Looking at the properties of one more block keeps track of the owner.
proof fn lemma_owner_so_far(
    blocks: Seq<MaterializedBlock>,
    n: nat,
    m: nat,
    uuid: u128,
    owner: RawOwner,
)
    requires
        n < blocks.len(),
        m <= blocks[n as int].parsed.properties@.len(),
        is_owner_among(blocks, n as int, 0, uuid, owner),
    ensures
        is_owner_among(
            blocks,
            n as int,
            m as int,
            uuid,
            owner_in_block(owner, blocks[n as int], m, uuid),
        ),
    decreases m,
{
    if m > 0 {
        let before = owner_in_block(owner, blocks[n as int], (m - 1) as nat, uuid);
        lemma_owner_so_far(blocks, n, (m - 1) as nat, uuid, owner);
        assert forall|j: int, p: int| #[trigger]
            writes_among(blocks, n as int, m as int, uuid, j, p) <==> writes_among(
                blocks,
                n as int,
                m - 1,
                uuid,
                j,
                p,
            ) || (j == n && p == m - 1 && property_id(
                blocks[n as int].parsed.properties@[m - 1],
            ) == Some(uuid)) by {}
        if property_id(blocks[n as int].parsed.properties@[m - 1]) == Some(uuid) {
            assert(writes_among(blocks, n as int, m as int, uuid, n as int, m - 1));
            match before {
                RawOwner::Nobody => {
                    assert forall|i: int, q: int| #[trigger]
                        writes_among(blocks, n as int, m as int, uuid, i, q) implies i == n && q == m
                        - 1 by {
                        assert(!writes_among(blocks, n as int, m - 1, uuid, i, q));
                    }
                },
                RawOwner::Only(id) => {
                    let (j, p) = choose|j: int, p: int| #[trigger]
                        writes_among(blocks, n as int, m - 1, uuid, j, p) && blocks[j].block_id
                            == id;
                    assert(writes_among(blocks, n as int, m as int, uuid, j, p));
                },
                RawOwner::Several => {
                    let (j, p, i, q) = choose|j: int, p: int, i: int, q: int|
                        #![trigger
                            writes_among(blocks, n as int, m - 1, uuid, j, p),
                            writes_among(blocks,
                            n as int,
                            m - 1,
                            uuid,
                            i,
                            q)
                        ]
                        writes_among(blocks, n as int, m - 1, uuid, j, p) && writes_among(
                            blocks,
                            n as int,
                            m - 1,
                            uuid,
                            i,
                            q,
                        ) && (j != i || p != q);
                    assert(writes_among(blocks, n as int, m as int, uuid, j, p));
                    assert(writes_among(blocks, n as int, m as int, uuid, i, q));
                },
            }
        } else {
            assert forall|j: int, p: int| #[trigger]
                writes_among(blocks, n as int, m as int, uuid, j, p) <==> writes_among(
                    blocks,
                    n as int,
                    m - 1,
                    uuid,
                    j,
                    p,
                ) by {}
            lemma_same_writers(blocks, n as int, m - 1, n as int, m as int, uuid, before);
        }
    }
}

/// The owner depends on the writers alone.
proof fn lemma_same_writers(
    blocks: Seq<MaterializedBlock>,
    n: int,
    m: int,
    n2: int,
    m2: int,
    uuid: u128,
    owner: RawOwner,
)
    requires
        is_owner_among(blocks, n, m, uuid, owner),
        forall|j: int, p: int| #[trigger]
            writes_among(blocks, n2, m2, uuid, j, p) <==> writes_among(blocks, n, m, uuid, j, p),
    ensures
        is_owner_among(blocks, n2, m2, uuid, owner),
{
    match owner {
        RawOwner::Nobody => {},
        RawOwner::Only(id) => {
            let (j, p) = choose|j: int, p: int| #[trigger]
                writes_among(blocks, n, m, uuid, j, p) && blocks[j].block_id == id && forall|
                    i: int,
                    q: int,
                | #[trigger]
                    writes_among(blocks, n, m, uuid, i, q) ==> i == j && q == p;
            assert(writes_among(blocks, n2, m2, uuid, j, p));
        },
        RawOwner::Several => {
            let (j, p, i, q) = choose|j: int, p: int, i: int, q: int|
                #![trigger
                    writes_among(blocks, n, m, uuid, j, p),
                    writes_among(blocks,
                    n,
                    m,
                    uuid,
                    i,
                    q)
                ]
                writes_among(blocks, n, m, uuid, j, p) && writes_among(blocks, n, m, uuid, i, q)
                    && (j != i || p != q);
            assert(writes_among(blocks, n2, m2, uuid, j, p));
            assert(writes_among(blocks, n2, m2, uuid, i, q));
        },
    }
}

/// Looking at the first blocks finds the owner among them.
proof fn lemma_owner_found(blocks: Seq<MaterializedBlock>, n: nat, uuid: u128)
    requires
        n <= blocks.len(),
    ensures
        is_owner_among(blocks, n as int, 0, uuid, owner_among(blocks, n, uuid)),
    decreases n,
{
    if n > 0 {
        let properties = blocks[n - 1].parsed.properties@.len();
        let before = owner_among(blocks, (n - 1) as nat, uuid);
        lemma_owner_found(blocks, (n - 1) as nat, uuid);
        lemma_owner_so_far(blocks, (n - 1) as nat, properties, uuid, before);
        lemma_same_writers(
            blocks,
            n - 1,
            properties as int,
            n as int,
            0,
            uuid,
            owner_among(blocks, n, uuid),
        );
    }
}

/// An identity belongs to nobody where no property of the page writes it, to a block where one of
/// its properties is the only one that does, and to several where two properties do, of one block
/// or of two.
pub proof fn law_identity_belongs_to_its_only_writer(
    blocks: Seq<MaterializedBlock>,
    uuid: LogseqUuid,
)
    ensures
        match raw_owner(blocks, uuid) {
            RawOwner::Nobody => forall|j: int, p: int| !writes_identity(blocks, uuid, j, p),
            RawOwner::Only(id) => exists|j: int, p: int| #[trigger]
                writes_identity(blocks, uuid, j, p) && blocks[j].block_id == id && forall|
                    i: int,
                    q: int,
                | #[trigger]
                    writes_identity(blocks, uuid, i, q) ==> i == j && q == p,
            RawOwner::Several => exists|j: int, p: int, i: int, q: int|
                #![trigger writes_identity(blocks, uuid, j, p), writes_identity(blocks, uuid, i, q)]
                writes_identity(blocks, uuid, j, p) && writes_identity(blocks, uuid, i, q) && (j
                    != i || p != q),
        },
{
    let value = uuid.uuid.value;
    let n = blocks.len() as int;
    lemma_owner_found(blocks, blocks.len(), value);
    assert forall|j: int, p: int| #[trigger]
        writes_identity(blocks, uuid, j, p) <==> writes_among(blocks, n, 0, value, j, p) by {}
    match raw_owner(blocks, uuid) {
        RawOwner::Nobody => {},
        RawOwner::Only(id) => {
            let (j, p) = choose|j: int, p: int| #[trigger]
                writes_among(blocks, n, 0, value, j, p) && blocks[j].block_id == id && forall|
                    i: int,
                    q: int,
                | #[trigger]
                    writes_among(blocks, n, 0, value, i, q) ==> i == j && q == p;
            assert(writes_identity(blocks, uuid, j, p));
        },
        RawOwner::Several => {
            let (j, p, i, q) = choose|j: int, p: int, i: int, q: int|
                #![trigger
                    writes_among(blocks, n, 0, value, j, p),
                    writes_among(blocks,
                    n,
                    0,
                    value,
                    i,
                    q)
                ]
                writes_among(blocks, n, 0, value, j, p) && writes_among(blocks, n, 0, value, i, q)
                    && (j != i || p != q);
            assert(writes_identity(blocks, uuid, j, p) && writes_identity(blocks, uuid, i, q));
        },
    }
}

/// White space is told by the code point.
proof fn lemma_white_point(c: char)
    ensures
        is_white_space(c) == is_white_point(c as int),
{
}

/// White space at the front of a text ends where a character follows that is none.
proof fn lemma_lead(text: Seq<char>)
    ensures
        lead_end(text) <= text.len(),
        forall|k: int| 0 <= k < lead_end(text) ==> is_white_space(#[trigger] text[k]),
        lead_end(text) < text.len() ==> !is_white_space(text[lead_end(text) as int]),
    decreases text.len(),
{
    if text.len() > 0 && is_white_space(text[0]) {
        let rest = text.skip(1);
        lemma_lead(rest);
        assert forall|k: int| 0 <= k < lead_end(text) implies is_white_space(
            #[trigger] text[k],
        ) by {
            if k > 0 {
                assert(rest[k - 1] == text[k]);
            }
        }
    }
}

/// White space at the end of a text starts behind a character that is none.
proof fn lemma_tail(text: Seq<char>)
    ensures
        tail_start(text) <= text.len(),
        forall|k: int| tail_start(text) <= k < text.len() ==> is_white_space(#[trigger] text[k]),
        tail_start(text) > 0 ==> !is_white_space(text[tail_start(text) - 1]),
    decreases text.len(),
{
    if text.len() > 0 && is_white_space(text.last()) {
        let front = text.drop_last();
        lemma_tail(front);
        assert forall|k: int| tail_start(text) <= k < text.len() implies is_white_space(
            #[trigger] text[k],
        ) by {
            if k < front.len() {
                assert(front[k] == text[k]);
            }
        }
    }
}

/// Trimming a text takes white space off both ends, all of it and nothing else.
pub proof fn law_trimming_takes_white_space_off(text: Seq<char>)
    ensures
        exists|from: int, to: int|
            0 <= from <= to <= text.len() && trimmed(text) == #[trigger] text.subrange(from, to) && (
            forall|k: int|
                0 <= k < from || to <= k < text.len() ==> is_white_point(
                    (#[trigger] text[k]) as int,
                )) && (from < to ==> !is_white_point(text[from] as int) && !is_white_point(
                text[to - 1] as int,
            )),
{
    let to = tail_start(text) as int;
    let front = text.take(to);
    let from = lead_end(front) as int;
    lemma_tail(text);
    lemma_lead(front);
    assert(trimmed(text) =~= text.subrange(from, to));
    assert forall|k: int| 0 <= k < from || to <= k < text.len() implies is_white_point(
        (#[trigger] text[k]) as int,
    ) by {
        if k < from {
            assert(is_white_space(front[k]));
        }
        lemma_white_point(text[k]);
    }
    if from < to {
        assert(front[from] == text[from]);
        lemma_white_point(text[from]);
        lemma_white_point(text[to - 1]);
    }
}

/// A property writes an identity exactly where its name is `id`, in letters of either case, and its
/// value, but for white space round it, reads as that identity.
pub proof fn law_identity_is_written_by_the_id_property(property: (String, String), value: u128)
    ensures
        property_id(property) == Some(value) <==> {
            &&& property.0@.len() == 2
            &&& property.0@[0] == 'i' || property.0@[0] == 'I'
            &&& property.0@[1] == 'd' || property.0@[1] == 'D'
            &&& uuid_parsed(trimmed(property.1@)) == Some(value)
        },
{
    reveal_strlit("id");
    let name = property.0@;
    if is_ascii_case_of(name, "id"@) {
        assert(crate::text::ascii_lower(name[0]) == 'i');
        assert(crate::text::ascii_lower(name[1]) == 'd');
    }
}

/// Whether the identity of block `i` can stand: it has an origin exactly where it is there, no other
/// block has it, and no property but one of the block's own writes it.
pub open spec fn identity_can_stand(blocks: Seq<MaterializedBlock>, i: int) -> bool {
    let block = blocks[i];
    &&& block.logseq_uuid is Some <==> block.logseq_identity_origin is Some
    &&& block.logseq_uuid is Some ==> {
        &&& forall|j: int|
            0 <= j < blocks.len() && j != i ==> (#[trigger] blocks[j]).logseq_uuid
                != block.logseq_uuid
        &&& forall|j: int, p: int| #[trigger]
            writes_identity(blocks, block.logseq_uuid->0, j, p) ==> blocks[j].block_id
                == block.block_id && forall|k: int, q: int| #[trigger]
                writes_identity(blocks, block.logseq_uuid->0, k, q) ==> k == j && q == p
    }
}

/// The identities of a page are in order exactly where each of them can stand.
pub proof fn law_identities_are_consistent(blocks: Seq<MaterializedBlock>)
    ensures
        identities_fault(blocks, blocks.len()) is None <==> forall|i: int|
            0 <= i < blocks.len() ==> #[trigger] identity_can_stand(blocks, i),
{
    let n = blocks.len();
    if identities_fault(blocks, n) is None {
        assert forall|i: int| 0 <= i < n implies #[trigger] identity_can_stand(blocks, i) by {
            lemma_identity_at(blocks, n, i);
            if blocks[i].logseq_uuid is Some {
                law_identity_belongs_to_its_only_writer(blocks, blocks[i].logseq_uuid->0);
                assert forall|j: int| 0 <= j < n && j != i implies (
                #[trigger] blocks[j]).logseq_uuid != blocks[i].logseq_uuid by {
                    lemma_identity_at(blocks, n, j);
                }
            }
        }
    }
    if forall|i: int| 0 <= i < n ==> #[trigger] identity_can_stand(blocks, i) {
        lemma_identities_stand(blocks, n);
    }
}

/// Where each identity can stand, none is faulty.
proof fn lemma_identities_stand(blocks: Seq<MaterializedBlock>, n: nat)
    requires
        n <= blocks.len(),
        forall|i: int| 0 <= i < blocks.len() ==> #[trigger] identity_can_stand(blocks, i),
    ensures
        identities_fault(blocks, n) is None,
    decreases n,
{
    if n > 0 {
        lemma_identities_stand(blocks, (n - 1) as nat);
        let i = n - 1;
        assert(identity_can_stand(blocks, i));
        if blocks[i].logseq_uuid is Some {
            law_identity_belongs_to_its_only_writer(blocks, blocks[i].logseq_uuid->0);
        }
    }
}

/// The first faulty identity is that of some block.
proof fn lemma_first_identity_fault(blocks: Seq<MaterializedBlock>, n: nat) -> (i: int)
    requires
        n <= blocks.len(),
        identities_fault(blocks, n) is Some,
    ensures
        0 <= i < n,
        identity_fault(blocks, i) == identities_fault(blocks, n),
    decreases n,
{
    if identities_fault(blocks, (n - 1) as nat) is Some {
        lemma_first_identity_fault(blocks, (n - 1) as nat)
    } else {
        n - 1
    }
}

/// Whether the identity of block `i` is disputed: a property of another block writes it, or more
/// than one property does.
pub open spec fn is_disputed(blocks: Seq<MaterializedBlock>, i: int, uuid: LogseqUuid) -> bool {
    &&& 0 <= i < blocks.len()
    &&& blocks[i].logseq_uuid == Some(uuid)
    &&& exists|j: int, p: int| #[trigger]
        writes_identity(blocks, uuid, j, p) && (blocks[j].block_id != blocks[i].block_id || exists|
            k: int,
            q: int,
        | #[trigger]
            writes_identity(blocks, uuid, k, q) && (k != j || q != p))
}

/// Whether block `i` is the one named, and has an identity without an origin or an origin without
/// an identity.
pub open spec fn is_half_identified(blocks: Seq<MaterializedBlock>, i: int, id: BlockId) -> bool {
    &&& 0 <= i < blocks.len()
    &&& blocks[i].block_id == id
    &&& blocks[i].logseq_uuid is Some != blocks[i].logseq_identity_origin is Some
}

/// Whether two blocks have an identity.
pub open spec fn is_claimed_twice(blocks: Seq<MaterializedBlock>, uuid: LogseqUuid) -> bool {
    exists|i: int, j: int|
        0 <= i < j < blocks.len() && (#[trigger] blocks[i]).logseq_uuid == Some(uuid) && (
        #[trigger] blocks[j]).logseq_uuid == Some(uuid)
}

/// Where an identity cannot stand, the error says why: a block has an identity without an origin or
/// an origin without one, two blocks have the same, or a property writes it that is not the only
/// one of its block.
pub proof fn law_faulty_identities_are_named(blocks: Seq<MaterializedBlock>)
    requires
        identities_fault(blocks, blocks.len()) is Some,
    ensures
        match identities_fault(blocks, blocks.len())->0 {
            ProjectionError::InconsistentLogseqIdentityOrigin(id) => exists|i: int| #[trigger]
                is_half_identified(blocks, i, id),
            ProjectionError::DuplicateLogseqClaim(uuid) => is_claimed_twice(blocks, uuid),
            ProjectionError::AmbiguousRawLogseqId(uuid) => exists|i: int| #[trigger]
                is_disputed(blocks, i, uuid),
            _ => false,
        },
{
    let i = lemma_first_identity_fault(blocks, blocks.len());
    let fault = identity_fault(blocks, i)->0;
    if fault is InconsistentLogseqIdentityOrigin {
        assert(is_half_identified(blocks, i, blocks[i].block_id));
    } else if fault is DuplicateLogseqClaim {
        let uuid = blocks[i].logseq_uuid->0;
        let j = choose|j: int| 0 <= j < i && (#[trigger] blocks[j]).logseq_uuid == Some(uuid);
        assert(blocks[j].logseq_uuid == Some(uuid) && blocks[i].logseq_uuid == Some(uuid));
        assert(is_claimed_twice(blocks, uuid));
    } else {
        lemma_disputed(blocks, i);
        assert(fault == ProjectionError::AmbiguousRawLogseqId(blocks[i].logseq_uuid->0));
    }
    let error = identities_fault(blocks, blocks.len())->0;
    assert(error == fault);
    match error {
        ProjectionError::InconsistentLogseqIdentityOrigin(id) => {
            assert(is_half_identified(blocks, i, id));
        },
        ProjectionError::DuplicateLogseqClaim(uuid) => {
            assert(is_claimed_twice(blocks, uuid));
        },
        ProjectionError::AmbiguousRawLogseqId(uuid) => {
            assert(is_disputed(blocks, i, uuid));
        },
        _ => { assert(false); },
    }
}

/// An identity that its block does not own alone is disputed.
proof fn lemma_disputed(blocks: Seq<MaterializedBlock>, i: int)
    requires
        0 <= i < blocks.len(),
        blocks[i].logseq_uuid is Some,
        !(raw_owner(blocks, blocks[i].logseq_uuid->0) is Nobody),
        raw_owner(blocks, blocks[i].logseq_uuid->0) != RawOwner::Only(blocks[i].block_id),
    ensures
        is_disputed(blocks, i, blocks[i].logseq_uuid->0),
{
    let uuid = blocks[i].logseq_uuid->0;
    law_identity_belongs_to_its_only_writer(blocks, uuid);
    if raw_owner(blocks, uuid) is Several {
        let (j, p, k, q) = choose|j: int, p: int, k: int, q: int|
            #![trigger writes_identity(blocks, uuid, j, p), writes_identity(blocks, uuid, k, q)]
            writes_identity(blocks, uuid, j, p) && writes_identity(blocks, uuid, k, q) && (j != k
                || p != q);
        assert(writes_identity(blocks, uuid, j, p) && writes_identity(blocks, uuid, k, q));
    } else {
        let id = raw_owner(blocks, uuid)->Only_0;
        let (j, p) = choose|j: int, p: int| #[trigger]
            writes_identity(blocks, uuid, j, p) && blocks[j].block_id == id;
        assert(writes_identity(blocks, uuid, j, p));
    }
}

/// A block whose identity can stand keeps its text as it is, where it has no identity or writes its
/// own; where nobody writes its identity, that is put into the text if a policy gave it, and the
/// block is refused if it came from outside. What is projected carries the block's own identity.
pub proof fn law_only_generated_identities_are_put_into_the_text(
    blocks: Seq<MaterializedBlock>,
    i: int,
    format: ProjectionFormat,
)
    requires
        0 <= i < blocks.len(),
        identity_can_stand(blocks, i),
    ensures
        ({
            let block = blocks[i];
            let content = projected_content(blocks, block, format);
            let written = exists|j: int, p: int| #[trigger]
                writes_identity(blocks, block.logseq_uuid->0, j, p);
            &&& block.logseq_uuid is None || written ==> content == Ok::<_, ProjectionError>(
                (block.content@, block.logseq_uuid, false),
            )
            &&& block.logseq_uuid is Some && !written
                && block.logseq_identity_origin->0 is ExternalImported ==> content == Err::<
                (Seq<u8>, Option<LogseqUuid>, bool),
                ProjectionError,
            >(
                ProjectionError::MissingExternalRawLogseqId {
                    block: block.block_id,
                    logseq_uuid: block.logseq_uuid->0,
                },
            )
            &&& block.logseq_uuid is Some && !written
                && block.logseq_identity_origin->0 is PolicyGenerated ==> match injected(
                block.content@,
                block.parsed.drawer,
                format,
                block.logseq_uuid->0,
            ) {
                Ok(text) => content == Ok::<_, ProjectionError>((text, block.logseq_uuid, true)),
                Err(error) => content == Err::<
                    (Seq<u8>, Option<LogseqUuid>, bool),
                    ProjectionError,
                >(error),
            }
        }),
{
    if blocks[i].logseq_uuid is Some {
        law_identity_belongs_to_its_only_writer(blocks, blocks[i].logseq_uuid->0);
    }
}

} // verus!
