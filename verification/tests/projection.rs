//! Planning of whole pages, with a small outline engine standing in for the editor's own parser
//! and serialiser.

use std::cell::Cell;
use std::collections::{BTreeMap, BTreeSet};

use tine_projection::annotation::{
    AnnotatedIdentity, ProjectionClaimEvidence, ProjectionClaimParticipant, StructuralSpan,
};
use tine_projection::document::{build_page_document, Document};
use tine_projection::editor::PreparedEditorProjection;
use tine_projection::error::ProjectionError;
use tine_projection::execution::{completed_plan_matches_current, ProjectionExecution};
use tine_projection::frontier::FrontierV2;
use tine_projection::hash::{BlobDescription, Digest};
use tine_projection::ids::{
    BlockId, DocumentId, LogseqUuid, PageId, PortablePathKeyDigest, Uuid, WorkspaceId,
};
use tine_projection::incremental::{
    incremental_block_text, incremental_markdown_content_projection, BlockParses,
};
use tine_projection::inject::{inject_policy_generated_logseq_id, ProjectionFormat};
use tine_projection::intent::ProjectionPrecondition;
use tine_projection::line_ends::file_bytes;
use tine_projection::page::{
    LogseqIdentityOrigin, ManagedTextKind, MaterializedBlock, MaterializedPage, ParsedContent,
    PolicyGeneratedAnchorReason, ProjectionPageState,
};
use tine_projection::path::ManagedPath;
use tine_projection::plan::{
    render_input, render_projection_page, render_projection_page_with_layout_identities,
    render_requested_page_document, structural_layout_identities, ExactSourceProjectionError,
    PageRendering, ProjectionPlan, RenderedProjection, SourceBase, StrictSource,
    StructuralLayoutIdentity,
};
use tine_projection::recovery_run::{RecoveryAction, RecoveryEvent, RecoveryRun};
use tine_projection::render::{mark_document_blocks, unused_mark_prefix};
use tine_projection::semantics::{SourceBlock, SourceDocument};

// The outline engine.

#[derive(Clone, Debug)]
struct ParsedBlock {
    locator: Vec<u32>,
    raw: String,
    start: usize,
    indent: String,
    bulleted: bool,
    blanks_before: usize,
}

#[derive(Clone, Debug)]
struct Parsed {
    pre_block: Option<String>,
    gap: usize,
    blocks: Vec<ParsedBlock>,
    length: usize,
    crlf: bool,
    final_newline: bool,
}

fn lines_of(text: &str) -> Vec<(usize, String)> {
    let mut lines = Vec::new();
    let mut at = 0;
    for segment in text.split_inclusive('\n') {
        let line = segment.strip_suffix('\n').unwrap_or(segment);
        let line = line.strip_suffix('\r').unwrap_or(line);
        lines.push((at, line.to_string()));
        at += segment.len();
    }
    lines
}

fn is_blank(line: &str) -> bool {
    line.trim().is_empty()
}

fn is_heading(line: &str) -> bool {
    let level = line.chars().take_while(|c| *c == '#').count();
    (1..=6).contains(&level) && line[level..].starts_with(' ')
}

fn is_fence(line: &str) -> bool {
    line.trim_start().starts_with("```")
}

fn opens_literal(line: &str) -> bool {
    line.trim_start().to_ascii_uppercase().starts_with("#+BEGIN_")
}

fn closes_literal(line: &str) -> bool {
    line.trim_start().to_ascii_uppercase().starts_with("#+END_")
}

/// The depth mark, the first line and the shape of a block that starts at a line.
fn block_start(format: ProjectionFormat, line: &str) -> Option<(usize, String, String, bool)> {
    match format {
        ProjectionFormat::Markdown => {
            let body = line.trim_start_matches([' ', '\t']);
            let indent = line[..line.len() - body.len()].to_string();
            if let Some(first) = body.strip_prefix("- ") {
                return Some((indent.len(), first.to_string(), indent, true));
            }
            if body == "-" {
                return Some((indent.len(), String::new(), indent, true));
            }
            if is_heading(line) {
                return Some((0, line.to_string(), indent, false));
            }
            None
        }
        ProjectionFormat::Org => {
            let stars = line.chars().take_while(|c| *c == '*').count();
            if stars > 0 && line[stars..].starts_with(' ') {
                return Some((stars, line[stars + 1..].to_string(), String::new(), true));
            }
            None
        }
    }
}

fn parse(format: ProjectionFormat, text: &str) -> Parsed {
    let mut pre: Vec<String> = Vec::new();
    let mut blocks: Vec<ParsedBlock> = Vec::new();
    let mut stack: Vec<(usize, u32)> = Vec::new();
    let mut roots: u32 = 0;
    let mut children: BTreeMap<Vec<u32>, u32> = BTreeMap::new();
    let mut pending: Vec<String> = Vec::new();
    let mut literal = false;
    let mut gap = 0;
    for (at, line) in lines_of(text) {
        if !literal {
            if let Some((mark, first, indent, bulleted)) = block_start(format, &line) {
                while stack.last().is_some_and(|(held, _)| *held >= mark) {
                    stack.pop();
                }
                let parent: Vec<u32> = stack.iter().map(|(_, index)| *index).collect();
                let counter = if parent.is_empty() {
                    &mut roots
                } else {
                    children.entry(parent.clone()).or_insert(0)
                };
                let index = *counter;
                *counter += 1;
                stack.push((mark, index));
                let mut locator = parent;
                locator.push(index);
                if blocks.is_empty() {
                    gap = pending.len();
                }
                blocks.push(ParsedBlock {
                    locator,
                    raw: first.clone(),
                    start: at,
                    indent,
                    bulleted,
                    blanks_before: pending.len(),
                });
                pending.clear();
                literal = match format {
                    ProjectionFormat::Markdown => is_fence(&first),
                    ProjectionFormat::Org => false,
                };
                continue;
            }
            if is_blank(&line) {
                pending.push(line);
                continue;
            }
        }
        match blocks.last_mut() {
            None => {
                for blank in pending.drain(..) {
                    pre.push(blank);
                }
                pre.push(line);
            }
            Some(block) => {
                for _ in pending.drain(..) {
                    block.raw.push('\n');
                }
                let kept = match format {
                    ProjectionFormat::Markdown => {
                        let body = line.strip_prefix(block.indent.as_str()).unwrap_or(&line);
                        let body = if block.bulleted {
                            body.strip_prefix("  ").unwrap_or(body)
                        } else {
                            body
                        };
                        body.to_string()
                    }
                    ProjectionFormat::Org => line.clone(),
                };
                literal = match format {
                    ProjectionFormat::Markdown => literal != is_fence(&kept),
                    ProjectionFormat::Org => {
                        (literal || opens_literal(&kept)) && !closes_literal(&kept)
                    }
                };
                block.raw.push('\n');
                block.raw.push_str(&kept);
            }
        }
    }
    Parsed {
        pre_block: if pre.is_empty() {
            None
        } else {
            Some(pre.join("\n"))
        },
        gap,
        blocks,
        length: text.len(),
        crlf: text.contains("\r\n"),
        final_newline: text.ends_with('\n'),
    }
}

/// The property lines of a block's text, and the range of its first drawer.
fn properties_of(format: ProjectionFormat, raw: &str) -> (Vec<(String, String)>, Option<(usize, usize)>) {
    let mut properties = Vec::new();
    let mut drawer = None;
    let mut literal = false;
    let mut open: Option<usize> = None;
    for (at, line) in lines_of(raw) {
        match format {
            ProjectionFormat::Markdown => {
                if is_fence(&line) {
                    literal = !literal;
                } else if !literal {
                    if let Some((key, value)) = line.split_once("::") {
                        let named = !key.is_empty()
                            && key.chars().all(|c| c.is_alphanumeric() || c == '-' || c == '_');
                        if named && (value.is_empty() || value.starts_with(' ')) {
                            properties.push((key.to_string(), value.trim().to_string()));
                        }
                    }
                }
            }
            ProjectionFormat::Org => {
                if opens_literal(&line) {
                    literal = true;
                } else if closes_literal(&line) {
                    literal = false;
                } else if !literal {
                    let upper = line.trim().to_ascii_uppercase();
                    if upper == ":PROPERTIES:" {
                        open = Some(at);
                    } else if upper == ":END:" {
                        if let (Some(start), None) = (open, drawer) {
                            drawer = Some((start, at + line.len()));
                        }
                        open = None;
                    } else if open.is_some() {
                        if let Some((key, value)) = line.trim().trim_start_matches(':').split_once(':')
                        {
                            properties.push((key.to_string(), value.trim().to_string()));
                        }
                    }
                }
            }
        }
    }
    (properties, drawer)
}

fn parsed_content(format: ProjectionFormat, content: &str) -> ParsedContent {
    let (properties, drawer) = properties_of(format, content);
    let lead = content.len() - content.trim_start().len();
    ParsedContent {
        properties,
        drawer: drawer.map(|(start, end)| (start - lead + 2, end - lead + 2)),
    }
}

fn source_document(format: ProjectionFormat, parsed: &Parsed) -> SourceDocument {
    SourceDocument {
        pre_block: parsed.pre_block.as_ref().map(|text| text.clone().into_bytes()),
        blocks: parsed
            .blocks
            .iter()
            .map(|block| SourceBlock {
                locator: block.locator.clone(),
                raw: block.raw.clone().into_bytes(),
                properties: properties_of(format, &block.raw).0,
            })
            .collect(),
    }
}

struct Piece {
    locator: Vec<u32>,
    raw: String,
    identity: String,
}

fn serialize(
    format: ProjectionFormat,
    pre_block: Option<&str>,
    pieces: &[Piece],
    base: Option<&Parsed>,
    layout: &[StructuralLayoutIdentity],
) -> String {
    let kept = |piece: &Piece| -> Option<(usize, ParsedBlock)> {
        let base = base?;
        let bound = layout.iter().find(|entry| entry.block_identity == piece.identity)?;
        let index = base.blocks.iter().position(|block| block.locator == bound.locator)?;
        Some((index, base.blocks[index].clone()))
    };
    let unit = base
        .and_then(|base| base.blocks.iter().find(|block| block.locator.len() == 2))
        .map(|block| block.indent.clone())
        .filter(|indent| !indent.is_empty())
        .unwrap_or_else(|| "\t".to_string());
    let mut out: Vec<String> = Vec::new();
    if let Some(text) = pre_block {
        out.extend(text.split('\n').map(str::to_string));
        let gap = match (pieces.first().and_then(&kept), base) {
            (Some((0, _)), Some(base)) if base.pre_block.is_some() => base.gap,
            _ => 1,
        };
        if !pieces.is_empty() {
            out.extend((0..gap).map(|_| String::new()));
        }
    }
    for (position, piece) in pieces.iter().enumerate() {
        let held = kept(piece);
        if position > 0 {
            if let Some((index, block)) = &held {
                if *index > 0 {
                    out.extend((0..block.blanks_before).map(|_| String::new()));
                }
            }
        }
        let depth = piece.locator.len();
        let unbulleted = held.is_some_and(|(_, block)| !block.bulleted);
        for (line_index, line) in piece.raw.split('\n').enumerate() {
            let text = match format {
                ProjectionFormat::Markdown if piece.raw.is_empty() => {
                    format!("{}-", unit.repeat(depth - 1))
                }
                ProjectionFormat::Org if piece.raw.is_empty() => "*".repeat(depth),
                ProjectionFormat::Markdown if unbulleted => line.to_string(),
                ProjectionFormat::Markdown => {
                    let lead = unit.repeat(depth - 1);
                    if line_index == 0 {
                        format!("{lead}- {line}")
                    } else {
                        format!("{lead}  {line}")
                    }
                }
                ProjectionFormat::Org if line_index == 0 => {
                    format!("{} {line}", "*".repeat(depth))
                }
                ProjectionFormat::Org => line.to_string(),
            };
            out.push(text);
        }
    }
    let newline = match format {
        ProjectionFormat::Org if base.is_some_and(|base| base.crlf) => "\r\n",
        _ => "\n",
    };
    let mut text = out.join(newline);
    let bare = !layout.is_empty() && base.is_some_and(|base| !base.final_newline);
    if !text.is_empty() && !bare {
        text.push_str(newline);
    }
    text
}

fn pieces_of(document: &Document) -> Vec<Piece> {
    document
        .blocks
        .iter()
        .map(|block| Piece {
            locator: block.locator.clone(),
            raw: String::from_utf8(block.raw.clone()).unwrap(),
            identity: block.block_id.as_uuid().hyphenated(),
        })
        .collect()
}

fn outline(parsed: &Parsed) -> Vec<(Vec<u32>, String)> {
    parsed
        .blocks
        .iter()
        .map(|block| (block.locator.clone(), block.raw.clone()))
        .collect()
}

/// What a host reads of the bytes of a file.
fn read_source(format: ProjectionFormat, bytes: &[u8]) -> SourceBase {
    let text = std::str::from_utf8(bytes).unwrap();
    let parsed = parse(format, text);
    let pieces: Vec<Piece> = parsed
        .blocks
        .iter()
        .map(|block| Piece {
            locator: block.locator.clone(),
            raw: block.raw.clone(),
            identity: String::new(),
        })
        .collect();
    let again = serialize(format, parsed.pre_block.as_deref(), &pieces, Some(&parsed), &[]);
    let again = file_bytes(format, again.into_bytes(), Some(bytes));
    let again = parse(format, std::str::from_utf8(&again).unwrap());
    let round_trips =
        again.pre_block == parsed.pre_block && outline(&again) == outline(&parsed);
    let mut block_spans = Vec::new();
    for (index, block) in parsed.blocks.iter().enumerate() {
        let end = parsed
            .blocks
            .get(index + 1)
            .map_or(parsed.length, |next| next.start);
        block_spans.push((block.start, end));
    }
    SourceBase {
        bytes: bytes.to_vec(),
        document: source_document(format, &parsed),
        strict: Ok(StrictSource {
            document: source_document(format, &parsed),
            block_spans,
            round_trips,
        }),
    }
}

fn heading_end(format: ProjectionFormat, raw: &[u8]) -> Option<usize> {
    let text = std::str::from_utf8(raw).unwrap();
    let first = text.split('\n').next().unwrap();
    match format {
        ProjectionFormat::Markdown if is_heading(first) => Some(first.len()),
        _ => None,
    }
}

fn render_with(
    format: ProjectionFormat,
    document: &Document,
    base: Option<&SourceBase>,
    layout: &[StructuralLayoutIdentity],
) -> PageRendering {
    let parsed = base.map(|base| parse(format, std::str::from_utf8(&base.bytes).unwrap()));
    let pre_block = document
        .pre_block
        .as_ref()
        .map(|text| String::from_utf8(text.clone()).unwrap());
    let pre_block = pre_block.as_deref();
    let serialized = serialize(format, pre_block, &pieces_of(document), parsed.as_ref(), layout);
    let target = file_bytes(
        format,
        serialized.clone().into_bytes(),
        base.map(|base| base.bytes.as_slice()),
    );
    let prefix = unused_mark_prefix(&target).unwrap();
    let heading_ends: Vec<Option<usize>> = document
        .blocks
        .iter()
        .map(|block| heading_end(format, &block.raw))
        .collect();
    let marked = mark_document_blocks(format, document, &heading_ends, &prefix);
    let marked = serialize(format, pre_block, &pieces_of(&marked), parsed.as_ref(), layout);
    PageRendering {
        serialized: serialized.into_bytes(),
        marked: marked.into_bytes(),
        properties: document
            .blocks
            .iter()
            .map(|block| properties_of(format, std::str::from_utf8(&block.raw).unwrap()).0)
            .collect(),
    }
}

fn render_page(
    page: &MaterializedPage,
    base: Option<&SourceBase>,
    annotations: Option<&[AnnotatedIdentity]>,
) -> PageRendering {
    match render_input(page, base, annotations) {
        Ok(input) => render_with(input.format, &input.document, base, &input.layout),
        Err(_) => PageRendering {
            serialized: Vec::new(),
            marked: Vec::new(),
            properties: Vec::new(),
        },
    }
}

fn format_of(path: &str) -> ProjectionFormat {
    if path.to_ascii_lowercase().ends_with(".org") {
        ProjectionFormat::Org
    } else {
        ProjectionFormat::Markdown
    }
}

/// A host that counts what it parses and how often it plans.
struct Host {
    plans: Cell<usize>,
    base_parses: Cell<usize>,
}

impl Host {
    fn new() -> Host {
        Host {
            plans: Cell::new(0),
            base_parses: Cell::new(0),
        }
    }

    fn base(&self, path: &str, bytes: &[u8]) -> SourceBase {
        self.base_parses.set(self.base_parses.get() + 1);
        read_source(format_of(path), bytes)
    }

    fn plan(
        &self,
        workspace: WorkspaceId,
        state: &ProjectionPageState,
        base: Option<&[u8]>,
        annotations: Option<&[AnnotatedIdentity]>,
    ) -> Result<ProjectionPlan, ProjectionError> {
        self.plans.set(self.plans.get() + 1);
        let base = base.map(|bytes| self.base(state.page.path.as_str(), bytes));
        let rendering = render_page(&state.page, base.as_ref(), annotations);
        tine_projection::plan::plan_projection_with_layout_annotations(
            workspace,
            state,
            base.as_ref(),
            annotations,
            &rendering,
        )
    }
}

fn plan_projection(
    workspace: WorkspaceId,
    state: &ProjectionPageState,
    base: Option<&[u8]>,
) -> Result<ProjectionPlan, ProjectionError> {
    let base = base.map(|bytes| read_source(format_of(state.page.path.as_str()), bytes));
    let rendering = render_page(&state.page, base.as_ref(), None);
    tine_projection::plan::plan_projection(workspace, state, base.as_ref(), &rendering)
}

fn plan_projection_with_layout_annotations(
    workspace: WorkspaceId,
    state: &ProjectionPageState,
    base: Option<&[u8]>,
    annotations: Option<&[AnnotatedIdentity]>,
) -> Result<ProjectionPlan, ProjectionError> {
    Host::new().plan(workspace, state, base, annotations)
}

fn plan_projection_adopting_exact_source(
    workspace: WorkspaceId,
    state: &ProjectionPageState,
    source: &[u8],
) -> Result<ProjectionPlan, ExactSourceProjectionError> {
    let base = read_source(format_of(state.page.path.as_str()), source);
    let rendering = render_page(&state.page, Some(&base), None);
    tine_projection::plan::plan_projection_adopting_exact_source(
        workspace, state, &base, &rendering,
    )
}

fn render_projection(
    state: &ProjectionPageState,
    base: Option<&[u8]>,
) -> Result<RenderedProjection, ProjectionError> {
    let base = base.map(|bytes| read_source(format_of(state.page.path.as_str()), bytes));
    let rendering = render_page(&state.page, base.as_ref(), None);
    render_projection_page(&state.page, base.as_ref(), None, &rendering)
}

fn prepare(
    requested: &MaterializedPage,
    accepted: &MaterializedPage,
    base: &[u8],
) -> Result<PreparedEditorProjection, ProjectionError> {
    let format = format_of(accepted.path.as_str());
    let base = read_source(format, base);
    let accepted_rendering = render_page(accepted, Some(&base), None);
    let rendered = render_projection_page(accepted, Some(&base), None, &accepted_rendering)?;
    let document = build_page_document(requested, format)?;
    let layout = structural_layout_identities(&rendered.annotations);
    let requested_rendering = render_with(format, &document, Some(&base), &layout);
    PreparedEditorProjection::prepare(
        requested.clone(),
        accepted,
        &base,
        &accepted_rendering,
        &requested_rendering,
    )
}

// Values.

fn uuid(value: u128) -> Uuid {
    Uuid::from_u128(value)
}

fn workspace(value: u128) -> WorkspaceId {
    WorkspaceId::from_uuid(uuid(value))
}

fn logseq(value: u128) -> LogseqUuid {
    LogseqUuid::from_uuid(uuid(value))
}

fn shown(value: LogseqUuid) -> String {
    value.as_uuid().hyphenated()
}

fn text(bytes: &[u8]) -> &str {
    std::str::from_utf8(bytes).unwrap()
}

fn path(value: &str) -> ManagedPath {
    let key = Digest::of(value.to_lowercase().as_bytes());
    ManagedPath::new(value.to_string(), PortablePathKeyDigest::from_digest(key))
}

/// Sets a block's text together with what the parser reads of it.
fn set_content(block: &mut MaterializedBlock, format: ProjectionFormat, content: &str) {
    block.content = content.as_bytes().to_vec();
    block.parsed = parsed_content(format, content);
}

fn structural_layout_state(
    managed_path: &str,
    blocks: Vec<(u128, Option<u128>, &str, String, Option<LogseqUuid>)>,
) -> ProjectionPageState {
    let home_document_id = DocumentId::from_uuid(uuid(80_000));
    let format = format_of(managed_path);
    let blocks = blocks
        .into_iter()
        .map(|(id, parent, order, content, logseq_uuid)| MaterializedBlock {
            block_id: BlockId::from_uuid(uuid(id)),
            home_document_id,
            parent: parent.map(|id| BlockId::from_uuid(uuid(id))),
            order: order.to_string(),
            logseq_uuid,
            logseq_identity_origin: logseq_uuid.map(|_| LogseqIdentityOrigin::ExternalImported),
            content: content.as_bytes().to_vec(),
            parsed: parsed_content(format, &content),
        })
        .collect::<Vec<_>>();
    let claim_evidence = blocks
        .iter()
        .filter_map(|block| {
            block.logseq_uuid.map(|logseq_uuid| {
                ProjectionClaimEvidence::new(
                    logseq_uuid,
                    vec![ProjectionClaimParticipant::new(
                        block.block_id,
                        block.home_document_id,
                    )],
                )
            })
        })
        .collect::<Vec<_>>();
    let frontier = if claim_evidence.is_empty() {
        FrontierV2::default()
    } else {
        FrontierV2::from_encoded(home_document_id.as_uuid().to_bytes())
    };
    ProjectionPageState {
        page: MaterializedPage {
            page_id: PageId::from_uuid(uuid(80_001)),
            home_document_id,
            name: "Structural Layout".to_string(),
            path: path(managed_path),
            kind: ManagedTextKind::Page,
            preamble: None,
            blocks,
        },
        frontier,
        claim_evidence,
    }
}

fn block(
    value: u128,
    parent: Option<u128>,
    order: &str,
    content: impl Into<String>,
    logseq_uuid: Option<LogseqUuid>,
) -> MaterializedBlock {
    MaterializedBlock {
        block_id: BlockId::from_uuid(uuid(value)),
        home_document_id: DocumentId::from_uuid(uuid(10_000 + value)),
        parent: parent.map(|value| BlockId::from_uuid(uuid(value))),
        order: order.to_string(),
        logseq_uuid,
        logseq_identity_origin: logseq_uuid.map(|_| LogseqIdentityOrigin::ExternalImported),
        content: content.into().into_bytes(),
        parsed: ParsedContent {
            properties: Vec::new(),
            drawer: None,
        },
    }
}

fn generated_block(
    value: u128,
    parent: Option<u128>,
    order: &str,
    content: impl Into<String>,
    logseq_uuid: LogseqUuid,
    reason: PolicyGeneratedAnchorReason,
) -> MaterializedBlock {
    let mut block = block(value, parent, order, content, Some(logseq_uuid));
    block.logseq_identity_origin = Some(LogseqIdentityOrigin::PolicyGenerated { reason });
    block
}

fn page(managed_path: &str, mut blocks: Vec<MaterializedBlock>) -> ProjectionPageState {
    let format = format_of(managed_path);
    let mut participants = BTreeMap::<u128, Vec<ProjectionClaimParticipant>>::new();
    for block in &mut blocks {
        block.parsed = parsed_content(format, std::str::from_utf8(&block.content).unwrap());
        if let Some(logseq_uuid) = block.logseq_uuid {
            participants
                .entry(logseq_uuid.uuid.value)
                .or_default()
                .push(ProjectionClaimParticipant::new(
                    block.block_id,
                    block.home_document_id,
                ));
        }
    }
    let documents = participants
        .values()
        .flatten()
        .map(|participant| participant.home_document_id.uuid.value)
        .collect::<BTreeSet<_>>();
    let mut encoded = Vec::new();
    for (index, document) in documents.into_iter().enumerate() {
        encoded.extend(document.to_be_bytes());
        encoded.push(index as u8 + 1);
    }
    ProjectionPageState {
        page: MaterializedPage {
            page_id: PageId::from_uuid(uuid(500)),
            home_document_id: DocumentId::from_uuid(uuid(501)),
            name: "Projection Page".to_string(),
            path: path(managed_path),
            kind: ManagedTextKind::Page,
            preamble: None,
            blocks,
        },
        frontier: FrontierV2::from_encoded(encoded),
        claim_evidence: participants
            .into_iter()
            .map(|(value, participants)| ProjectionClaimEvidence::new(logseq(value), participants))
            .collect(),
    }
}

fn plan(state: &ProjectionPageState, base: Option<&[u8]>) -> ProjectionPlan {
    plan_projection(workspace(1), state, base).unwrap()
}

fn reproject_with_source_identities(
    base_state: &ProjectionPageState,
    source: &str,
    target_state: &ProjectionPageState,
) -> ProjectionPlan {
    let base = plan_projection(workspace(80_002), base_state, Some(source.as_bytes())).unwrap();
    assert_eq!(base.target(), source.as_bytes());
    plan_projection_with_layout_annotations(
        workspace(80_002),
        target_state,
        Some(source.as_bytes()),
        Some(base.intent().annotations()),
    )
    .unwrap()
}

/// The outline that a state's own document has.
fn expected_outline(
    state: &ProjectionPageState,
    format: ProjectionFormat,
) -> (Option<String>, Vec<(Vec<u32>, String)>) {
    let document = build_page_document(&state.page, format).unwrap();
    (
        document.pre_block.map(|text| String::from_utf8(text).unwrap()),
        document
            .blocks
            .into_iter()
            .map(|block| (block.locator, String::from_utf8(block.raw).unwrap()))
            .collect(),
    )
}

fn parsed_outline(
    format: ProjectionFormat,
    bytes: &[u8],
) -> (Option<String>, Vec<(Vec<u32>, String)>) {
    let parsed = parse(format, text(bytes));
    (parsed.pre_block.clone(), outline(&parsed))
}

/// The strict parses of every annotated block of a file and of the text that would replace it.
fn block_parses(
    requested: &MaterializedPage,
    base: &[u8],
    annotations: &[AnnotatedIdentity],
) -> Vec<BlockParses> {
    let format = ProjectionFormat::Markdown;
    let crlf = text(base).contains("\r\n");
    annotations
        .iter()
        .map(|annotation| {
            let span = annotation.span();
            let source = &base[span.start() as usize..span.end() as usize];
            let content = requested
                .blocks
                .iter()
                .find(|block| block.block_id == annotation.block_id())
                .map(|block| block.content.clone())
                .unwrap_or_default();
            BlockParses {
                accepted: Some(source_document(format, &parse(format, text(source)))),
                replaced: incremental_block_text(source, &content, crlf)
                    .map(|replaced| source_document(format, &parse(format, text(&replaced)))),
            }
        })
        .collect()
}

// Incremental rendering and the editor's prepared projection.

#[test]
fn incremental_markdown_content_projection_matches_complete_crlf_projector() {
    let workspace = workspace(80_002);
    let state = structural_layout_state(
        "pages/incremental.md",
        vec![
            (81_001, None, "a", "alpha".into(), None),
            (81_002, None, "b", "omega".into(), None),
        ],
    );
    let canonical = plan_projection(workspace, &state, None).unwrap();
    let crlf = text(canonical.target()).replace('\n', "\r\n").into_bytes();
    let accepted = plan_projection(workspace, &state, Some(&crlf)).unwrap();
    assert_eq!(accepted.target(), crlf);

    let mut requested = state.page.clone();
    set_content(
        &mut requested.blocks[0],
        ProjectionFormat::Markdown,
        "alpha edited\ncontinuation",
    );
    let annotations = accepted.intent().annotations();
    let incremental = incremental_markdown_content_projection(
        &state.page,
        &requested,
        &crlf,
        annotations,
        &block_parses(&requested, &crlf, annotations),
    )
    .unwrap()
    .expect("ordinary content edit uses the incremental projector");
    let base = read_source(ProjectionFormat::Markdown, &crlf);
    let layout = structural_layout_identities(annotations);
    let document = build_page_document(&requested, ProjectionFormat::Markdown).unwrap();
    let rendering = render_with(ProjectionFormat::Markdown, &document, Some(&base), &layout);
    let complete =
        render_projection_page_with_layout_identities(&requested, Some(&base), &layout, &rendering)
            .unwrap();
    assert_eq!(
        text(&incremental.target),
        "- alpha edited\r\n  continuation\r\n- omega\r\n"
    );
    assert_eq!(incremental.target, complete.target);
    assert_eq!(incremental.annotations, complete.annotations);
    assert_eq!(incremental.generated_anchors, complete.generated_anchors);
}

#[test]
fn incremental_markdown_content_projection_refuses_structural_change() {
    let state = structural_layout_state(
        "pages/incremental-structure.md",
        vec![
            (82_001, None, "a", "alpha".into(), None),
            (82_002, None, "b", "omega".into(), None),
        ],
    );
    let accepted = plan_projection(workspace(80_002), &state, None).unwrap();
    let mut requested = state.page.clone();
    requested.blocks[1].parent = Some(requested.blocks[0].block_id);
    let annotations = accepted.intent().annotations();
    assert!(incremental_markdown_content_projection(
        &state.page,
        &requested,
        accepted.target(),
        annotations,
        &block_parses(&requested, accepted.target(), annotations),
    )
    .unwrap()
    .is_none());
}

fn assert_prepared_editor_projection_matches_ordinary_fallback(
    label: &str,
    accepted: ProjectionPageState,
    after: ProjectionPageState,
    base: &[u8],
) {
    let workspace = workspace(80_071);
    let authenticated_base = plan_projection(workspace, &accepted, Some(base)).unwrap();
    let ordinary = plan_projection_with_layout_annotations(
        workspace,
        &after,
        Some(base),
        Some(authenticated_base.intent().annotations()),
    )
    .unwrap();
    let prepared = prepare(&after.page, &accepted.page, base).unwrap();
    let reused = prepared
        .into_fresh_plan(
            workspace,
            &after,
            base,
            authenticated_base.intent().annotations(),
        )
        .unwrap()
        .unwrap_or_else(|| panic!("{label}: exact authenticated inputs did not reuse"));

    assert_eq!(reused.target(), ordinary.target(), "{label}: target");
    assert_eq!(
        reused.intent().annotations(),
        ordinary.intent().annotations(),
        "{label}: annotations"
    );
    assert_eq!(
        reused.intent().precondition(),
        ordinary.intent().precondition(),
        "{label}: precondition"
    );
    assert_eq!(
        reused.intent().frontier(),
        ordinary.intent().frontier(),
        "{label}: frontier"
    );
    assert_eq!(
        reused.intent().claim_evidence(),
        ordinary.intent().claim_evidence(),
        "{label}: claim evidence"
    );
    assert_eq!(reused.intent(), ordinary.intent(), "{label}: full intent");

    let mut mismatched_base = base.to_vec();
    mismatched_base.push(b'!');
    let forced_fallback = prepare(&after.page, &accepted.page, base)
        .unwrap()
        .into_fresh_plan(
            workspace,
            &after,
            &mismatched_base,
            authenticated_base.intent().annotations(),
        )
        .unwrap();
    assert!(
        forced_fallback.is_none(),
        "{label}: mismatched capture base must select the ordinary planner"
    );
}

#[test]
fn a_hot_predecessor_is_patched_and_its_rendering_is_taken_once() {
    let workspace = workspace(80_002);
    let state = structural_layout_state(
        "pages/hot.md",
        vec![
            (83_001, None, "a", "alpha".into(), None),
            (83_002, None, "b", "omega".into(), None),
        ],
    );
    let accepted = plan_projection(workspace, &state, None).unwrap();
    let annotations = accepted.intent().annotations();
    let base = read_source(ProjectionFormat::Markdown, accepted.target());
    let mut requested = state.page.clone();
    set_content(&mut requested.blocks[0], ProjectionFormat::Markdown, "edited");
    let document = build_page_document(&requested, ProjectionFormat::Markdown).unwrap();
    let layout = structural_layout_identities(annotations);
    let rendering = render_with(ProjectionFormat::Markdown, &document, Some(&base), &layout);
    let prepared = PreparedEditorProjection::prepare_from_hot_predecessor(
        requested.clone(),
        &state.page,
        &base,
        annotations.to_vec(),
        &block_parses(&requested, accepted.target(), annotations),
        &rendering,
    )
    .unwrap();
    assert_eq!(prepared.requested_page_candidate(), &requested);
    assert_eq!(text(prepared.target()), "- edited\n- omega\n");
    assert_eq!(prepared.accepted_target(), accepted.target());
    assert_eq!(
        prepared.accepted_predecessor_candidate(),
        Some((accepted.target(), annotations))
    );
    assert!(prepared.before_candidate_matches_exact_base());

    let mut prepared = prepared.bind_accepted_page(state.page.clone());
    let (page, target, kept) = prepared
        .take_before_candidate()
        .unwrap()
        .into_page_and_accepted_render()
        .unwrap();
    assert_eq!(page, state.page);
    assert_eq!(target, accepted.target());
    assert_eq!(kept, annotations);
    assert!(prepared.take_before_candidate().is_none());
    assert!(!prepared.before_candidate_matches_exact_base());
}

#[test]
fn a_requested_page_is_rendered_without_an_intent() {
    let state = structural_layout_state(
        "pages/requested.md",
        vec![
            (84_001, None, "a", "alpha".into(), None),
            (84_002, Some(84_001), "a", "child".into(), None),
        ],
    );
    let rendering = render_page(&state.page, None, None);
    let bytes = render_requested_page_document(&state.page, None, &rendering).unwrap();
    let planned = plan_projection(workspace(80_002), &state, None).unwrap();
    assert_eq!(bytes, planned.target());
    assert!(!planned.guarded_layout().uses_revive_page_self_base());
}

#[test]
fn a_generated_identity_is_written_as_its_format_asks() {
    let id = logseq(0x0123_4567_89ab_cdef_0123_4567_89ab_cdef);
    let shown = "01234567-89ab-cdef-0123-456789abcdef";
    let injected = |content: &str, is_org: bool| {
        let format = if is_org {
            ProjectionFormat::Org
        } else {
            ProjectionFormat::Markdown
        };
        let drawer = parsed_content(format, content).drawer;
        String::from_utf8(
            inject_policy_generated_logseq_id(content.as_bytes(), drawer, is_org, id).unwrap(),
        )
        .unwrap()
    };
    assert_eq!(injected("alpha", false), format!("alpha\nid:: {shown}"));
    assert_eq!(
        injected("alpha\n:PROPERTIES:\n:kind: note\n:END:", true),
        format!("alpha\n:PROPERTIES:\n:kind: note\n:id: {shown}\n:END:")
    );
    assert_eq!(
        inject_policy_generated_logseq_id(b"alpha", Some((3, 1)), true, id),
        Err(ProjectionError::ParserSpanMismatch)
    );
}

#[test]
fn completion_carries_an_existing_page_plan_without_replanning() {
    let workspace = workspace(80_070);
    let state = structural_layout_state(
        "pages/completion-plan.md",
        vec![(80_071, None, "a", "before".into(), None)],
    );
    let host = Host::new();
    let plan = host.plan(workspace, &state, Some(b"- before\n"), None).unwrap();

    assert!(completed_plan_matches_current(workspace, &state, &plan));
    assert_eq!((host.plans.get(), host.base_parses.get()), (1, 1));

    let mut later = state.clone();
    later.frontier = FrontierV2::from_encoded(vec![1]);
    assert!(!completed_plan_matches_current(workspace, &later, &plan));
}

#[test]
fn projection_drain_completion_passes_the_carried_plan_without_replanning() {
    let workspace = workspace(80_072);
    let state = structural_layout_state(
        "pages/drain-completion-plan.md",
        vec![(80_073, None, "a", "drained".into(), None)],
    );
    let host = Host::new();
    let plan = host.plan(workspace, &state, Some(b"- drained\n"), None).unwrap();
    assert!(completed_plan_matches_current(workspace, &state, &plan));
    assert_eq!((host.plans.get(), host.base_parses.get()), (1, 1));

    let mut run = RecoveryRun::new(workspace, plan.intent().clone(), true);
    let mut renderings = 0;
    let mut completions = 0;
    let mut action = run.asks();
    let finished = loop {
        action = match action {
            RecoveryAction::AuthorizeRecovery => {
                run.advance(RecoveryEvent::State(Ok(state.clone())))
            }
            RecoveryAction::LoadBase => run.advance(RecoveryEvent::Base(Ok(plan.base().cloned()))),
            RecoveryAction::Render => {
                renderings += 1;
                let base = read_source(ProjectionFormat::Markdown, b"- drained\n");
                let rendering = render_page(&state.page, Some(&base), None);
                run.advance(RecoveryEvent::Rendered {
                    base: Some(base),
                    rendering,
                })
            }
            RecoveryAction::LoadAttempts | RecoveryAction::BeginMutation => {
                run.advance(RecoveryEvent::Stored(Ok(())))
            }
            RecoveryAction::Recover => run.advance(RecoveryEvent::Operated(Ok(()))),
            RecoveryAction::ReconstructCompletion => {
                completions += 1;
                run.advance(RecoveryEvent::Stored(Ok(())))
            }
            RecoveryAction::NoteCompletion => run.advance(RecoveryEvent::Noted(Ok(()))),
            RecoveryAction::RetireCompleted => run.advance(RecoveryEvent::Retired(Ok(()))),
            RecoveryAction::AuthorizeWrite => run.advance(RecoveryEvent::State(Ok(state.clone()))),
            RecoveryAction::Finish(finished) => break finished,
            other => panic!("unexpected step: {other:?}"),
        };
    };
    assert_eq!(finished, Ok(ProjectionExecution::BarrierTaken));
    assert_eq!(completions, 1);
    assert_eq!(renderings, 1, "a drain completion must carry its existing plan");
}

#[test]
fn prepared_editor_projection_matches_the_complete_planner_for_markdown_and_org() {
    let markdown_uuid = logseq(80_081);
    let shown_uuid = shown(markdown_uuid);
    let mut markdown = structural_layout_state(
        "pages/prepared-layout.md",
        vec![
            (80_081, None, "a", "before".into(), Some(markdown_uuid)),
            (80_083, Some(80_081), "a", "child".into(), None),
            (80_084, None, "b", "tail".into(), None),
        ],
    );
    markdown.page.preamble = Some(b"title:: Structural Layout".to_vec());
    set_content(
        &mut markdown.page.blocks[0],
        ProjectionFormat::Markdown,
        &format!("before\nid:: {shown_uuid}"),
    );
    let markdown_base = format!(
        "title:: Structural Layout\r\n\r\n- before\r\n  id:: {shown_uuid}\r\n  - child\r\n\r\n- tail\r\n"
    );
    let mut markdown_after = markdown.clone();
    set_content(
        &mut markdown_after.page.blocks[2],
        ProjectionFormat::Markdown,
        "tail after reuse",
    );
    assert_prepared_editor_projection_matches_ordinary_fallback(
        "CRLF Markdown layout",
        markdown,
        markdown_after,
        markdown_base.as_bytes(),
    );

    let org_uuid = logseq(80_091);
    let shown_uuid = shown(org_uuid);
    let mut org = structural_layout_state(
        "journals/prepared-layout.org",
        vec![
            (80_091, None, "a", "before".into(), Some(org_uuid)),
            (80_093, Some(80_091), "a", "child".into(), None),
            (80_094, None, "b", "tail".into(), None),
        ],
    );
    org.page.preamble = Some(b"#+TITLE: Structural Layout".to_vec());
    set_content(
        &mut org.page.blocks[0],
        ProjectionFormat::Org,
        &format!("before\n:PROPERTIES:\n:ID: {shown_uuid}\n:END:"),
    );
    let org_base = format!(
        "#+TITLE: Structural Layout\n\n* before\n:PROPERTIES:\n:ID: {shown_uuid}\n:END:\n** child\n* tail\n"
    );
    let mut org_after = org.clone();
    set_content(
        &mut org_after.page.blocks[2],
        ProjectionFormat::Org,
        "tail after reuse",
    );
    assert_prepared_editor_projection_matches_ordinary_fallback(
        "editable Org",
        org,
        org_after,
        org_base.as_bytes(),
    );
}

#[test]
fn prepared_editor_projection_reuses_only_authenticated_page_base_and_layout_identity() {
    let workspace = workspace(80_101);
    let accepted = structural_layout_state(
        "pages/prepared-mismatch.md",
        vec![
            (80_102, None, "a", "before".into(), None),
            (80_103, Some(80_102), "a", "child".into(), None),
        ],
    );
    let base = b"- before\n  - child\n".to_vec();
    let authenticated_base = plan_projection(workspace, &accepted, Some(&base)).unwrap();
    let annotations = authenticated_base.intent().annotations().to_vec();
    assert!(
        !annotations.is_empty(),
        "the mismatch matrix needs structural capture annotations"
    );

    let mut requested = accepted.clone();
    set_content(
        &mut requested.page.blocks[0],
        ProjectionFormat::Markdown,
        "after",
    );
    let created = Cell::new(0);
    let fallback = Cell::new(0);
    let attempt = |after: ProjectionPageState,
                   captured_base: Vec<u8>,
                   captured_annotations: Vec<AnnotatedIdentity>| {
        let prepared = prepare(&requested.page, &accepted.page, &base).unwrap();
        created.set(created.get() + 1);
        let plan = prepared
            .into_fresh_plan(workspace, &after, &captured_base, &captured_annotations)
            .unwrap();
        if plan.is_none() {
            fallback.set(fallback.get() + 1);
        }
        plan
    };

    let reused = attempt(requested.clone(), base.clone(), annotations.clone());
    assert!(reused.is_some());

    let mut base_mismatch = base.clone();
    base_mismatch.push(b'!');
    let mut annotations_mismatch = annotations.clone();
    annotations_mismatch.pop();
    let mut page_id = requested.clone();
    page_id.page.page_id = PageId::from_uuid(uuid(80_104));
    let mut home_document_id = requested.clone();
    home_document_id.page.home_document_id = DocumentId::from_uuid(uuid(80_105));
    let mut name = requested.clone();
    name.page.name = "other name".to_string();
    let mut other_path = requested.clone();
    other_path.page.path = path("pages/other-name.md");
    let mut kind = requested.clone();
    kind.page.kind = ManagedTextKind::Journal;
    let mut preamble = requested.clone();
    preamble.page.preamble = Some(b"title:: other preamble".to_vec());
    let mut blocks = requested.clone();
    set_content(
        &mut blocks.page.blocks[1],
        ProjectionFormat::Markdown,
        "other child",
    );

    for (label, after, captured_base, captured_annotations) in [
        (
            "exact base bytes",
            requested.clone(),
            base_mismatch,
            annotations.clone(),
        ),
        (
            "structural annotations",
            requested.clone(),
            base.clone(),
            annotations_mismatch,
        ),
        ("page id", page_id, base.clone(), annotations.clone()),
        (
            "home document id",
            home_document_id,
            base.clone(),
            annotations.clone(),
        ),
        ("name", name, base.clone(), annotations.clone()),
        ("path", other_path, base.clone(), annotations.clone()),
        ("kind", kind, base.clone(), annotations.clone()),
        ("preamble", preamble, base.clone(), annotations.clone()),
        ("blocks", blocks, base.clone(), annotations.clone()),
    ] {
        assert!(
            attempt(after, captured_base, captured_annotations).is_none(),
            "{label} mismatch must select the ordinary finalizer planner"
        );
    }
    assert_eq!(created.get(), 10);
    assert_eq!(created.get() - fallback.get(), 1);
    assert_eq!(fallback.get(), 9);
}

// Adoption of the exact source.

#[test]
fn authenticated_annotations_do_not_change_the_planned_annotations() {
    let workspace = workspace(80_002);
    let state = structural_layout_state(
        "pages/legacy-spans.md",
        vec![(80_011, None, "a", "alpha".into(), None)],
    );
    let source = b"- alpha\n";

    let replayed = plan_projection(workspace, &state, Some(source)).unwrap();
    assert_eq!(replayed.target(), source);
    let rendered_annotations = replayed.intent().annotations().to_vec();
    assert_eq!(rendered_annotations.len(), 1);

    let rendered_span = rendered_annotations[0].span();
    let legacy = vec![AnnotatedIdentity::new(
        rendered_annotations[0].locator().clone(),
        StructuralSpan::new(rendered_span.start(), rendered_span.end() + 1).unwrap(),
        rendered_annotations[0].block_id(),
        rendered_annotations[0].logseq_uuid(),
    )];
    assert_eq!(rendered_span.end() + 1, source.len() as u64);
    assert_ne!(legacy.as_slice(), rendered_annotations.as_slice());

    let written =
        plan_projection_with_layout_annotations(workspace, &state, Some(source), Some(&legacy))
            .unwrap();
    assert_eq!(written.target(), source);
    assert_eq!(
        written.intent().annotations(),
        rendered_annotations.as_slice(),
        "a receipt written with legacy tiling spans must replay to the same annotations"
    );
}

#[test]
fn exact_source_adoption_preserves_equivalent_layout_and_source_spans() {
    let mut state = structural_layout_state(
        "pages/layout.md",
        vec![
            (80_011, None, "a", "alpha".into(), None),
            (
                80_012,
                Some(80_011),
                "a",
                "child\n\ncontinuation".into(),
                None,
            ),
            (80_013, None, "b", "omega".into(), None),
        ],
    );
    state.page.preamble = Some(b"title:: Structural Layout".to_vec());
    let source = b"title:: Structural Layout\r\n\r\n- alpha\r\n\r\n\t- child\r\n\t  \r\n\t  continuation\r\n \t\r\n- omega".as_slice();
    let workspace = workspace(80_002);

    let adopted = plan_projection_adopting_exact_source(workspace, &state, source).unwrap();
    assert_eq!(adopted.target(), source);
    assert_eq!(adopted.intent().target(), BlobDescription::of(source));
    assert_eq!(
        adopted.intent().precondition(),
        ProjectionPrecondition::Base(BlobDescription::of(source))
    );
    assert_eq!(adopted.intent().annotations().len(), 3);
    for annotation in adopted.intent().annotations() {
        let span = annotation.span();
        let owned = &source[span.start() as usize..span.end() as usize];
        assert!(owned.starts_with(b"- ") || owned.starts_with(b"\t- "));
    }
    let serialized = render_projection(&state, Some(source)).unwrap();
    assert_ne!(serialized.target, source);
    let canonical_source = text(source)
        .replace(" \t\r\n- omega", "\r\n- omega")
        .into_bytes();
    let canonical_rendered = render_projection(&state, Some(&canonical_source)).unwrap();
    assert_eq!(canonical_rendered.target, canonical_source);
    let canonical_adopted =
        plan_projection_adopting_exact_source(workspace, &state, &canonical_source).unwrap();
    assert_eq!(
        canonical_rendered.annotations,
        canonical_adopted.intent().annotations(),
        "byte-equal sources must remain compatible with canonical projector receipts"
    );

    let replay = plan_projection(workspace, &state, Some(source)).unwrap();
    assert_eq!(replay.intent(), adopted.intent());
    assert_eq!(replay.target(), source);

    let mut edited = state.clone();
    set_content(
        &mut edited.page.blocks[2],
        ProjectionFormat::Markdown,
        "omega edited",
    );
    let next = plan_projection_with_layout_annotations(
        workspace,
        &edited,
        Some(source),
        Some(adopted.intent().annotations()),
    )
    .unwrap();
    assert_ne!(next.target(), source);
    assert_eq!(
        next.intent().precondition(),
        ProjectionPrecondition::Base(BlobDescription::of(source))
    );
}

#[test]
fn receipt_backed_layout_replay_preserves_a_nonleading_atx_heading_target() {
    let state = structural_layout_state(
        "pages/heading.md",
        vec![(80_040, None, "a", "## Current plan".into(), None)],
    );
    let source = b"## Current plan\n";

    let rendered = render_projection(&state, Some(source)).unwrap();
    assert_eq!(rendered.target, source);
    let replay = plan_projection_with_layout_annotations(
        workspace(80_041),
        &state,
        Some(source),
        Some(&rendered.annotations),
    )
    .unwrap();
    assert_eq!(replay.target(), source);
    assert_eq!(replay.intent().annotations(), rendered.annotations);
}

#[test]
fn authenticated_exact_source_adoption_retains_markdown_whitespace_layouts() {
    let workspace = workspace(80_004);
    let cases = [
        (
            "empty-root-bullet",
            "pages/empty-root.md",
            vec![(80_111, None, "a", String::new(), None)],
            "- \n",
        ),
        (
            "empty-nested-bullet",
            "pages/empty-nested.md",
            vec![
                (80_121, None, "a", "parent".into(), None),
                (80_122, Some(80_121), "a", String::new(), None),
            ],
            "- parent\n  - \n",
        ),
        (
            "empty-bullet-crlf",
            "pages/empty-crlf.md",
            vec![(80_131, None, "a", String::new(), None)],
            "- \r\n",
        ),
        (
            "nonempty-trailing-space",
            "pages/nonempty-trailing.md",
            vec![(80_141, None, "a", "keeps trailing ".into(), None)],
            "- keeps trailing \n",
        ),
    ];

    for (name, managed_path, blocks, source) in cases {
        let state = structural_layout_state(managed_path, blocks);
        let imported =
            plan_projection_adopting_exact_source(workspace, &state, source.as_bytes())
                .unwrap_or_else(|error| panic!("{name} exact-source import failed: {error:?}"));
        let replay = plan_projection_with_layout_annotations(
            workspace,
            &state,
            Some(source.as_bytes()),
            Some(imported.intent().annotations()),
        )
        .unwrap_or_else(|error| panic!("{name} authenticated replay failed: {error:?}"));
        assert_eq!(
            replay.target(),
            source.as_bytes(),
            "{name} changed source bytes"
        );
        assert_eq!(
            replay.intent().annotations(),
            imported.intent().annotations(),
            "{name} changed source annotations"
        );
    }
}

#[test]
fn unannotated_exact_source_adoption_remains_available_for_org() {
    let state = structural_layout_state(
        "journals/2026_08_05.org",
        vec![(80_151, None, "a", "headline".into(), None)],
    );
    let source = b"* headline\r\n";
    let plan =
        plan_projection_with_layout_annotations(workspace(80_005), &state, Some(source), None)
            .expect("unannotated exact Org source must remain adoptable");
    assert_eq!(plan.target(), source);
}

#[test]
fn exact_source_adoption_rejects_each_relevant_semantic_difference() {
    let explicit = shown(logseq(80_020));
    let mut state = structural_layout_state(
        "pages/layout.md",
        vec![
            (80_011, None, "a", "alpha".into(), None),
            (80_012, Some(80_011), "a", "bravo".into(), None),
            (
                80_013,
                None,
                "b",
                format!("omega\nid:: {explicit}"),
                Some(logseq(80_020)),
            ),
        ],
    );
    state.page.preamble = Some(b"title:: Structural Layout\nstatus:: accepted".to_vec());
    let different_explicit = shown(logseq(80_021));
    let cases = [
        (
            "dropped block",
            "title:: Structural Layout\nstatus:: accepted\n\n- alpha\n\t- bravo\n".to_string(),
            "block count differs",
        ),
        (
            "changed content",
            format!(
                "title:: Structural Layout\nstatus:: accepted\n\n- alpha changed\n\t- bravo\n- omega\n  id:: {explicit}\n"
            ),
            "block content differs",
        ),
        (
            "changed ancestry",
            format!(
                "title:: Structural Layout\nstatus:: accepted\n\n- alpha\n- bravo\n- omega\n  id:: {explicit}\n"
            ),
            "block order or ancestry differs",
        ),
        (
            "changed order",
            format!(
                "title:: Structural Layout\nstatus:: accepted\n\n- omega\n  id:: {explicit}\n- alpha\n\t- bravo\n"
            ),
            "block order or ancestry differs",
        ),
        (
            "changed page property",
            format!(
                "title:: Structural Layout\nstatus:: changed\n\n- alpha\n\t- bravo\n- omega\n  id:: {explicit}\n"
            ),
            "page preamble or page properties differ",
        ),
        (
            "changed explicit identity",
            format!(
                "title:: Structural Layout\nstatus:: accepted\n\n- alpha\n\t- bravo\n- omega\n  id:: {different_explicit}\n"
            ),
            "explicit block identity differs",
        ),
    ];

    for (name, source, expected) in cases {
        let error =
            plan_projection_adopting_exact_source(workspace(80_002), &state, source.as_bytes())
                .unwrap_err();
        let ExactSourceProjectionError::Semantic(difference) = error else {
            panic!("{name} produced a non-semantic error: {error:?}");
        };
        assert!(
            difference.message().contains(expected),
            "{name}: {}",
            difference.message()
        );
    }
}

// What the layout of the file binds to identities.

#[test]
fn structural_trivia_follows_only_receipt_bound_identities_across_nested_edits() {
    let anchored = logseq(80_010);
    let anchor = shown(anchored);
    let base = structural_layout_state(
        "pages/layout.md",
        vec![
            (80_011, None, "a", "alpha".into(), None),
            (80_012, Some(80_011), "a", "child one".into(), None),
            (80_013, Some(80_011), "b", "child two".into(), None),
            (
                80_014,
                None,
                "b",
                format!("omega\nid:: {anchor}"),
                Some(anchored),
            ),
        ],
    );
    let source = format!("- alpha\n\t- child one\n\n\t- child two\n\n- omega\n  id:: {anchor}\n");

    let reordered = structural_layout_state(
        "pages/layout.md",
        vec![
            (
                80_014,
                None,
                "a",
                format!("omega\nid:: {anchor}"),
                Some(anchored),
            ),
            (80_011, None, "b", "alpha".into(), None),
            (80_013, Some(80_011), "a", "child two".into(), None),
            (80_012, Some(80_011), "b", "child one".into(), None),
        ],
    );
    let reordered_projection = reproject_with_source_identities(&base, &source, &reordered);
    assert_eq!(
        text(reordered_projection.target()),
        format!("- omega\n  id:: {anchor}\n- alpha\n\n\t- child two\n\t- child one\n")
    );
    let unproved =
        plan_projection(workspace(80_002), &reordered, Some(source.as_bytes())).unwrap();
    assert_eq!(
        text(unproved.target()),
        format!("- omega\n  id:: {anchor}\n- alpha\n\t- child two\n\t- child one\n"),
        "without receipt identity, sparse source trivia must canonicalize instead of moving by ordinal"
    );

    let inserted_deleted = structural_layout_state(
        "pages/layout.md",
        vec![
            (80_011, None, "a", "alpha".into(), None),
            (80_015, Some(80_011), "a", "inserted".into(), None),
            (80_013, Some(80_011), "b", "child two".into(), None),
        ],
    );
    let inserted_projection = reproject_with_source_identities(&base, &source, &inserted_deleted);
    assert_eq!(
        text(inserted_projection.target()),
        "- alpha\n\t- inserted\n\n\t- child two\n"
    );

    let changed_in_place = structural_layout_state(
        "pages/layout.md",
        vec![
            (80_011, None, "a", "alpha".into(), None),
            (80_012, Some(80_011), "a", "child one".into(), None),
            (80_013, Some(80_011), "b", "child two edited".into(), None),
            (
                80_014,
                None,
                "b",
                format!("omega\nid:: {anchor}"),
                Some(anchored),
            ),
        ],
    );
    let changed_projection = reproject_with_source_identities(&base, &source, &changed_in_place);
    assert!(text(changed_projection.target())
        .contains("child one\n\n\t- child two edited\n\n- omega"));

    for (state, projection) in [
        (&reordered, &reordered_projection),
        (&inserted_deleted, &inserted_projection),
        (&changed_in_place, &changed_projection),
    ] {
        assert_eq!(
            parsed_outline(ProjectionFormat::Markdown, projection.target()),
            expected_outline(state, ProjectionFormat::Markdown)
        );
    }
}

#[test]
fn org_structural_trivia_is_identity_safe_under_same_count_reorder() {
    let base = structural_layout_state(
        "pages/layout.org",
        vec![
            (80_021, None, "a", "first".into(), None),
            (80_022, Some(80_021), "a", "nested".into(), None),
            (80_023, None, "b", "last".into(), None),
        ],
    );
    let source = "* first\n\n** nested\n\n* last\n";
    let reordered = structural_layout_state(
        "pages/layout.org",
        vec![
            (80_023, None, "a", "last".into(), None),
            (80_021, None, "b", "first".into(), None),
            (80_022, Some(80_021), "a", "nested".into(), None),
        ],
    );
    let projection = reproject_with_source_identities(&base, source, &reordered);
    assert_eq!(text(projection.target()), "* last\n* first\n\n** nested\n");
    assert_eq!(
        parsed_outline(ProjectionFormat::Org, projection.target()),
        expected_outline(&reordered, ProjectionFormat::Org)
    );
}

#[test]
fn collapsed_heading_projection_retains_parser_owned_sibling_topology() {
    let base = structural_layout_state(
        "pages/collapsed.md",
        vec![
            (80_031, None, "a", "# Parent\ncollapsed:: true".into(), None),
            (80_032, None, "b", "child".into(), None),
        ],
    );
    let source = "# Parent\ncollapsed:: true\n- child\n";
    let inserted_root = structural_layout_state(
        "pages/collapsed.md",
        vec![
            (80_033, None, "a", "new root".into(), None),
            (80_031, None, "b", "# Parent\ncollapsed:: true".into(), None),
            (80_032, None, "c", "child".into(), None),
        ],
    );
    let projection = reproject_with_source_identities(&base, source, &inserted_root);
    let projected = text(projection.target());
    assert!(projected.starts_with("- new root\n# Parent\n"));
    let reparsed = parse(ProjectionFormat::Markdown, projected);
    assert!(reparsed.blocks.iter().all(|block| block.locator.len() == 1));
    assert_eq!(reparsed.blocks.len(), 3);
    assert_eq!(reparsed.blocks[0].raw, "new root");
    assert_eq!(reparsed.blocks[1].raw, "# Parent\ncollapsed:: true");
    assert_eq!(reparsed.blocks[2].raw, "child");

    let changed_child = structural_layout_state(
        "pages/collapsed.md",
        vec![
            (80_031, None, "a", "# Parent\ncollapsed:: true".into(), None),
            (80_032, None, "b", "child edited".into(), None),
        ],
    );
    let retained = reproject_with_source_identities(&base, source, &changed_child);
    assert!(text(retained.target()).starts_with("# Parent\ncollapsed:: true\n- child edited\n"));
}

#[test]
fn projection_format_accepts_mixed_case_markdown_and_org_without_output_changes() {
    let state = |managed_path: &str| -> ProjectionPageState {
        let home_document_id = DocumentId::from_uuid(uuid(12));
        ProjectionPageState {
            page: MaterializedPage {
                page_id: PageId::from_uuid(uuid(11)),
                home_document_id,
                name: "Format".to_string(),
                path: path(managed_path),
                kind: ManagedTextKind::Page,
                preamble: Some(b"title:: Format".to_vec()),
                blocks: vec![MaterializedBlock {
                    block_id: BlockId::from_uuid(uuid(13)),
                    home_document_id,
                    parent: None,
                    order: "a".to_string(),
                    logseq_uuid: None,
                    logseq_identity_origin: None,
                    content: b"content".to_vec(),
                    parsed: parsed_content(ProjectionFormat::Markdown, "content"),
                }],
            },
            frontier: FrontierV2::default(),
            claim_evidence: Vec::new(),
        }
    };
    let markdown = render_projection(&state("Root.md"), None).unwrap().target;
    assert_eq!(text(&markdown), "title:: Format\n\n- content\n");
    assert_eq!(
        markdown,
        render_projection(&state("Root.MaRkDoWn"), None).unwrap().target
    );
    let org = render_projection(&state("Root.org"), None).unwrap().target;
    assert_eq!(text(&org), "title:: Format\n\n* content\n");
    assert_eq!(org, render_projection(&state("Root.OrG"), None).unwrap().target);
}

// Whole pages.

#[test]
fn hierarchy_order_annotations_and_bytes_are_deterministic() {
    let blocks = vec![
        block(4, Some(1), "b", "child b", None),
        block(2, None, "b", "root b", None),
        block(1, None, "a", "root a", None),
        block(3, Some(1), "a", "child a", None),
    ];
    let expected = "- root a\n\t- child a\n\t- child b\n- root b\n";
    let first = plan(&page("pages/tree.md", blocks.clone()), None);
    let mut reversed = blocks;
    reversed.reverse();
    let second = plan(&page("pages/tree.md", reversed), None);

    assert_eq!(text(first.target()), expected);
    assert_eq!(first.target(), second.target());
    assert_eq!(first.intent(), second.intent());

    let annotations = first.intent().annotations();
    assert_eq!(annotations.len(), 4);
    assert_eq!(annotations[0].locator().components(), &[0]);
    assert_eq!(annotations[1].locator().components(), &[0, 0]);
    assert_eq!(annotations[2].locator().components(), &[0, 1]);
    assert_eq!(annotations[3].locator().components(), &[1]);
    for annotation in annotations {
        let span = annotation.span();
        let rendered = &first.target()[span.start() as usize..span.end() as usize];
        assert!(rendered.starts_with(b"- ") || rendered.windows(2).any(|pair| pair == b"- "));
        assert!(!rendered.is_empty());
    }
}

fn assert_imports_exactly(format: ProjectionFormat, managed_path: &str, sources: [&str; 6]) {
    for (case, source) in sources.into_iter().enumerate() {
        let parsed = parse(format, source);
        let blocks = parsed
            .blocks
            .iter()
            .filter(|parsed| parsed.locator.len() == 1)
            .enumerate()
            .map(|(index, parsed)| {
                block(
                    case as u128 * 100 + index as u128 + 1,
                    None,
                    &format!("{index:04}"),
                    parsed.raw.clone(),
                    None,
                )
            })
            .collect();
        let mut state = page(managed_path, blocks);
        state.page.preamble = parsed.pre_block.map(String::into_bytes);
        let projected = plan_projection(workspace(1), &state, Some(source.as_bytes()))
            .unwrap_or_else(|error| panic!("case {case} rejected span instrumentation: {error:?}"));
        assert_eq!(
            projected.target(),
            source.as_bytes(),
            "case {case} did not reproduce exact source bytes"
        );
    }
}

#[test]
fn imported_markdown_structural_trivia_is_span_instrumentation_transparent() {
    assert_imports_exactly(
        ProjectionFormat::Markdown,
        "pages/structural-trivia.md",
        [
            "- a\n\n",
            "- a\n\n- b\n",
            "- a\r\n\r\n- b\r\n\r\n",
            "- a",
            "title:: Page\n\n\n- a\n- b\n",
            "- fenced\n  ```text\n\n  - literal\n  ```\n\n- task\n  :LOGBOOK:\n  CLOCK: [2026-07-29 Wed]\n  :END:\n\n- final\n",
        ],
    );
}

#[test]
fn imported_org_structural_trivia_is_span_instrumentation_transparent() {
    assert_imports_exactly(
        ProjectionFormat::Org,
        "pages/structural-trivia.org",
        [
            "* a\n\n",
            "* a\n\n* b\n",
            "* a\r\n\r\n* b\r\n\r\n",
            "* a",
            "#+TITLE: Page\n\n\n* a\n* b\n",
            "* source\n#+BEGIN_SRC text\n* literal headline\n#+END_SRC\n\n* task\n:LOGBOOK:\nCLOCK: [2026-07-29 Wed]\n:END:\n\n* final\n",
        ],
    );
}

#[test]
fn malformed_hierarchies_fail_closed() {
    let missing = page(
        "pages/missing.md",
        vec![block(1, Some(99), "a", "orphan", None)],
    );
    assert!(matches!(
        plan_projection(workspace(1), &missing, None),
        Err(ProjectionError::MissingParent { .. })
    ));

    let cycle = page(
        "pages/cycle.md",
        vec![
            block(1, Some(2), "a", "one", None),
            block(2, Some(1), "a", "two", None),
        ],
    );
    assert!(matches!(
        plan_projection(workspace(1), &cycle, None),
        Err(ProjectionError::CyclicTree(_))
    ));
}

#[test]
fn concurrent_equal_sibling_orders_use_block_identity_as_a_stable_tie_breaker() {
    let duplicate_order = page(
        "pages/order.md",
        vec![
            block(1, None, "same", "one", None),
            block(2, None, "same", "two", None),
        ],
    );
    let forward = plan_projection(workspace(1), &duplicate_order, None).unwrap();
    let mut reversed = duplicate_order.clone();
    reversed.page.blocks.reverse();
    let reversed = plan_projection(workspace(1), &reversed, None).unwrap();
    assert_eq!(text(forward.target()), "- one\n- two\n");
    assert_eq!(forward.target(), reversed.target());
}

#[test]
fn sparse_address_state_covers_reference_embed_and_export_deep_link() {
    let reasons = [
        (1, "reference", PolicyGeneratedAnchorReason::BlockReference),
        (2, "embed", PolicyGeneratedAnchorReason::BlockEmbed),
        (3, "export deep link", PolicyGeneratedAnchorReason::Export),
        (
            4,
            "copied deep link",
            PolicyGeneratedAnchorReason::CopiedDeepLink,
        ),
    ];
    let blocks = reasons
        .iter()
        .enumerate()
        .map(|(index, (value, label, reason))| {
            generated_block(
                *value,
                None,
                &format!("{index}"),
                *label,
                logseq(100 + value),
                *reason,
            )
        })
        .collect();
    let result = plan(&page("pages/addressable.md", blocks), None);
    for (value, label, _) in reasons {
        assert!(text(result.target()).contains(label));
        assert!(
            text(result.target()).contains(&format!("id:: {}", shown(logseq(100 + value)))),
            "{label} did not receive its addressable UUID"
        );
    }
    assert_eq!(result.generated_anchors().len(), 4);
}

#[test]
fn id_removal_change_existing_invalid_and_duplicate_raw_text_are_preserved() {
    let changed = logseq(200);
    let duplicate = shown(logseq(201));
    let state = page(
        "pages/raw-ids.md",
        vec![
            block(1, None, "a", "removed", None),
            block(
                2,
                None,
                "b",
                format!("changed\nid:: {}", shown(changed)),
                Some(changed),
            ),
            block(3, None, "c", "invalid\nid:: definitely-not-a-uuid", None),
            block(
                4,
                None,
                "d",
                format!("duplicate one\nid:: {duplicate}"),
                None,
            ),
            block(
                5,
                None,
                "e",
                format!("duplicate two\nid:: {duplicate}"),
                None,
            ),
        ],
    );
    let result = plan(&state, None);
    let rendered = text(result.target());
    assert_eq!(rendered.matches("id::").count(), 4);
    assert!(rendered.contains("id:: definitely-not-a-uuid"));
    assert_eq!(rendered.matches(&duplicate).count(), 2);
    assert!(result.generated_anchors().is_empty());

    let annotations = result.intent().annotations();
    assert_eq!(annotations[0].logseq_uuid(), None);
    assert_eq!(annotations[1].logseq_uuid(), Some(changed));
    assert_eq!(annotations[2].logseq_uuid(), None);
    assert_eq!(annotations[3].logseq_uuid(), None);
    assert_eq!(annotations[4].logseq_uuid(), None);
}

#[test]
fn inconsistent_duplicate_logseq_authority_is_rejected_without_cleaning_bytes() {
    let duplicate = logseq(300);
    let shown_duplicate = shown(duplicate);
    let state = page(
        "pages/ambiguous.md",
        vec![
            block(
                1,
                None,
                "a",
                format!("one\nid:: {shown_duplicate}"),
                Some(duplicate),
            ),
            block(2, None, "b", format!("two\nid:: {shown_duplicate}"), None),
        ],
    );
    assert!(matches!(
        plan_projection(workspace(1), &state, None),
        Err(ProjectionError::AmbiguousRawLogseqId(id)) if id == duplicate
    ));
}

#[test]
fn external_identity_without_parser_confirmed_raw_property_fails_closed() {
    let external = logseq(450);
    let shown_external = shown(external);
    for content in [
        format!("outside\n```\nid:: {shown_external}\n```"),
        format!("outside `{shown_external}`\n`id:: {shown_external}`"),
    ] {
        let state = page(
            "pages/external.md",
            vec![block(1, None, "a", content, Some(external))],
        );
        assert!(matches!(
            plan_projection(workspace(1), &state, None),
            Err(ProjectionError::MissingExternalRawLogseqId {
                block: _,
                logseq_uuid
            }) if logseq_uuid == external
        ));
    }
}

#[test]
fn authoritative_preamble_and_structure_do_not_come_from_base() {
    let mut state = page(
        "pages/preamble.md",
        vec![
            block(1, None, "a", "root\nbody", None),
            block(2, Some(1), "a", "child", None),
        ],
    );
    state.page.preamble = Some(b"title:: Authoritative\nfree text".to_vec());
    let result = plan(&state, Some(b"title:: stale base\n\n- old\n"));
    assert_eq!(
        text(result.target()),
        "title:: Authoritative\nfree text\n\n- root\n  body\n\t- child\n"
    );
    let parsed = parse(ProjectionFormat::Markdown, text(result.target()));
    assert_eq!(
        parsed.pre_block.as_deref(),
        Some("title:: Authoritative\nfree text")
    );
    assert_eq!(
        outline(&parsed),
        vec![
            (vec![0], "root\nbody".to_string()),
            (vec![0, 0], "child".to_string())
        ]
    );
}

#[test]
fn untouched_supported_projection_remains_byte_identical() {
    let base = b"title:: Exact\r\n\r\n- root\r\n  body\r\n  - child\r\n";
    let mut state = page(
        "pages/untouched.md",
        vec![
            block(1, None, "a", "root\nbody", None),
            block(2, Some(1), "a", "child", None),
        ],
    );
    state.page.preamble = Some(b"title:: Exact".to_vec());
    let result = plan(&state, Some(base));
    assert_eq!(result.target(), base);
}

fn property(parsed: &Parsed, index: usize, name: &str) -> Option<String> {
    properties_of(ProjectionFormat::Org, &parsed.blocks[index].raw)
        .0
        .into_iter()
        .find(|(key, _)| key.eq_ignore_ascii_case(name))
        .map(|(_, value)| value)
}

#[test]
fn org_parser_distinguishes_real_mixed_case_id_from_source_and_example_blocks() {
    let existing = logseq(460);
    let generated = logseq(461);
    let existing_text = shown(existing);
    let generated_text = shown(generated);
    let state = page(
        "pages/org-parser.org",
        vec![
            block(
                1,
                None,
                "a",
                format!("real\n:properties:\n:Id: {existing_text}\n:end:"),
                Some(existing),
            ),
            generated_block(
                2,
                None,
                "b",
                format!(
                    "literal\n#+BEGIN_SRC text\n:PROPERTIES:\n:ID: {generated_text}\n:END:\n#+END_SRC\n#+BEGIN_EXAMPLE\n:ID: {generated_text}\n#+END_EXAMPLE"
                ),
                generated,
                PolicyGeneratedAnchorReason::BlockReference,
            ),
        ],
    );
    let result = plan(&state, None);
    let parsed = parse(ProjectionFormat::Org, text(result.target()));
    assert_eq!(property(&parsed, 0, "id"), Some(existing_text));
    assert_eq!(property(&parsed, 1, "id"), Some(generated_text.clone()));
    assert_eq!(text(result.target()).matches(&generated_text).count(), 3);
}

#[test]
fn markdown_org_and_crlf_use_one_projection_path() {
    let id = logseq(500);
    let shown_id = shown(id);
    let markdown = plan(
        &page(
            "pages/format.md",
            vec![
                block(1, None, "a", "root", None),
                generated_block(
                    2,
                    Some(1),
                    "a",
                    "child",
                    id,
                    PolicyGeneratedAnchorReason::BlockEmbed,
                ),
            ],
        ),
        Some(b"- old\r\n  - child\r\n"),
    );
    assert_eq!(
        text(markdown.target()),
        format!("- root\r\n  - child\r\n    id:: {shown_id}\r\n")
    );

    let org = plan(
        &page(
            "pages/format.org",
            vec![generated_block(
                1,
                None,
                "a",
                "TODO title\nSCHEDULED: <2026-07-23 Thu>\nbody",
                id,
                PolicyGeneratedAnchorReason::Export,
            )],
        ),
        Some(b"* old\r\n"),
    );
    assert_eq!(
        text(org.target()),
        format!(
            "* TODO title\r\nSCHEDULED: <2026-07-23 Thu>\r\n:PROPERTIES:\r\n:id: {shown_id}\r\n:END:\r\nbody\r\n"
        )
    );
}

#[test]
fn a_file_keeps_its_own_line_ends() {
    let markdown = ProjectionFormat::Markdown;
    let bytes = |base: Option<&[u8]>, serialized: &[u8]| {
        file_bytes(markdown, serialized.to_vec(), base)
    };
    assert_eq!(bytes(Some(b"- old\r\n"), b"- a\n  b\n"), b"- a\r\n  b\r\n");
    assert_eq!(bytes(Some(b"one\r\ntwo\n"), b"\n"), b"\r\n");
    assert_eq!(bytes(Some(b"- old\r\n"), b"- a\r\n"), b"- a\r\r\n");
    assert_eq!(bytes(Some(b"- old\n"), b"- a\n"), b"- a\n");
    assert_eq!(bytes(Some(b"- old\r"), b"- a\n"), b"- a\n");
    assert_eq!(bytes(None, b"- a\n"), b"- a\n");
    assert_eq!(bytes(Some(b"- old\r\n"), b""), b"");
    assert_eq!(
        file_bytes(ProjectionFormat::Org, b"* a\n".to_vec(), Some(b"* old\r\n")),
        b"* a\n"
    );
}

#[test]
fn every_block_is_annotated_once_inside_the_bytes() {
    for base in [None, Some(b"- old\r\n  - child\r\n".as_slice())] {
        let result = plan(
            &page(
                "pages/empty.md",
                vec![
                    block(3, None, "c", "", None),
                    block(1, None, "a", "first", None),
                    block(2, Some(1), "a", "", None),
                    block(4, Some(1), "b", "last child\nsecond line", None),
                ],
            ),
            base,
        );
        let annotations = result.intent().annotations();
        let blocks: Vec<u128> = annotations
            .iter()
            .map(|annotation| annotation.block_id().as_uuid().value)
            .collect();
        assert_eq!(blocks, [1, 2, 4, 3]);
        let locators: Vec<&[u32]> = annotations
            .iter()
            .map(|annotation| annotation.locator().components())
            .collect();
        assert_eq!(locators, [&[0][..], &[0, 0], &[0, 1], &[1]]);
        let mut end = 0;
        for annotation in annotations {
            let span = annotation.span();
            assert!(end <= span.start() && span.start() <= span.end());
            end = span.end();
        }
        assert!(end as usize <= result.target().len());
    }
}

#[test]
fn generated_anchors_ascend_by_block_and_are_the_policys() {
    let written = logseq(701);
    let imported = shown(written);
    let result = plan(
        &page(
            "pages/anchors.md",
            vec![
                generated_block(
                    9,
                    None,
                    "a",
                    "first",
                    logseq(709),
                    PolicyGeneratedAnchorReason::Export,
                ),
                block(5, None, "b", "plain", None),
                block(1, None, "c", format!("external\nid:: {imported}"), Some(written)),
                generated_block(
                    2,
                    None,
                    "d",
                    "second",
                    logseq(702),
                    PolicyGeneratedAnchorReason::BlockEmbed,
                ),
                generated_block(
                    3,
                    None,
                    "e",
                    format!("third\nid:: {}", shown(logseq(703))),
                    logseq(703),
                    PolicyGeneratedAnchorReason::BlockReference,
                ),
            ],
        ),
        None,
    );
    let anchors: Vec<(u128, LogseqUuid)> = result
        .generated_anchors
        .iter()
        .map(|anchor| (anchor.block_id().as_uuid().value, anchor.logseq_uuid()))
        .collect();
    assert_eq!(anchors, [(2, logseq(702)), (9, logseq(709))]);
}

/// A block as its reader sees it: its position, its text without properties, and those.
type SeenBlock = (Vec<u32>, String, Vec<(String, String)>);

fn seen_block(locator: &[u32], visible: &str, properties: &[(&str, &str)]) -> SeenBlock {
    (
        locator.to_vec(),
        visible.to_string(),
        properties
            .iter()
            .map(|(key, value)| (key.to_string(), value.to_string()))
            .collect(),
    )
}

/// What a reader sees of a file, without the listed identities at their positions.
fn seen(
    format: ProjectionFormat,
    bytes: &[u8],
    dropped: &[(Vec<u32>, LogseqUuid)],
) -> (Option<String>, Vec<SeenBlock>) {
    let parsed = parse(format, text(bytes));
    let blocks = parsed
        .blocks
        .iter()
        .map(|block| {
            let dropped = dropped
                .iter()
                .find(|(locator, _)| *locator == block.locator)
                .map(|(_, id)| shown(*id));
            let (properties, drawer) = properties_of(format, &block.raw);
            let visible = match (format, drawer) {
                (ProjectionFormat::Org, Some((start, end))) => {
                    let behind = block.raw[end..].trim_start_matches('\n');
                    let front = block.raw[..start].trim_end_matches('\n');
                    [front, behind]
                        .into_iter()
                        .filter(|part| !part.is_empty())
                        .collect::<Vec<_>>()
                        .join("\n")
                }
                (ProjectionFormat::Org, None) => block.raw.clone(),
                (ProjectionFormat::Markdown, _) => block
                    .raw
                    .split('\n')
                    .filter(|line| properties_of(format, line).0.is_empty())
                    .collect::<Vec<_>>()
                    .join("\n"),
            };
            let properties = properties
                .into_iter()
                .filter(|(key, value)| {
                    !key.eq_ignore_ascii_case("id") || dropped.as_deref() != Some(value.trim())
                })
                .collect();
            (block.locator.clone(), visible, properties)
        })
        .collect();
    (parsed.pre_block, blocks)
}

/// The page with an identity of its own for every block that has none.
fn dense(state: &ProjectionPageState) -> ProjectionPageState {
    let mut blocks = state.page.blocks.clone();
    for block in &mut blocks {
        if block.logseq_uuid.is_none() {
            block.logseq_uuid = Some(LogseqUuid::from_uuid(block.block_id.as_uuid()));
            block.logseq_identity_origin = Some(LogseqIdentityOrigin::PolicyGenerated {
                reason: PolicyGeneratedAnchorReason::Export,
            });
        }
    }
    let mut dense = page(state.page.path.as_str(), blocks);
    dense.page.preamble = state.page.preamble.clone();
    dense
}

struct DenseSparseCase {
    state: ProjectionPageState,
    base: Option<&'static [u8]>,
    expected: (Option<String>, Vec<SeenBlock>),
    dense_only: Vec<(Vec<u32>, LogseqUuid)>,
    sparse_generated: Vec<(BlockId, LogseqUuid)>,
    user_authored: Vec<String>,
    expect_crlf: bool,
}

#[test]
fn dense_bytes_and_sparse_projection_differ_only_by_fixture_generated_anchor() {
    let markdown = {
        let sparse_policy_id = logseq(151);
        let user_authored_id = shown(logseq(152));
        let block_ref = shown(logseq(153));
        let preamble = "title:: Dense Corpus\nalias:: policy corpus";
        let mut state = page(
            "pages/研究/Δ corpus.md",
            vec![
                block(
                    106,
                    None,
                    "z",
                    format!(
                        "DONE User-owned #review [[Other Page]]\nowner:: María\nstatus:: approved\nid:: {user_authored_id}"
                    ),
                    Some(logseq(152)),
                ),
                generated_block(
                    103,
                    Some(101),
                    "b",
                    "DOING generated sparse #keep [[Policy Page]]\npolicy:: retained",
                    sparse_policy_id,
                    PolicyGeneratedAnchorReason::BlockReference,
                ),
                block(
                    101,
                    None,
                    "a",
                    format!(
                        "TODO Parent 東京 #work [[Project Alpha]] (({block_ref}))\ncontinued 🧪 line\ncustom:: keep md\nview:: table"
                    ),
                    None,
                ),
                block(
                    104,
                    Some(102),
                    "a",
                    "Grandchild line one\nline two [[Nested Page]]",
                    None,
                ),
                block(105, Some(101), "c", "Duplicate sibling 🧩", None),
                block(102, Some(101), "a", "Duplicate sibling 🧩", None),
            ],
        );
        state.page.preamble = Some(preamble.as_bytes().to_vec());
        DenseSparseCase {
            state,
            base: Some(b"previous projection\r\n"),
            expected: (
                Some(preamble.to_string()),
                vec![
                    seen_block(
                        &[0],
                        "TODO Parent 東京 #work [[Project Alpha]] ((00000000-0000-0000-0000-000000000099))\ncontinued 🧪 line",
                        &[("custom", "keep md"), ("view", "table")],
                    ),
                    seen_block(&[0, 0], "Duplicate sibling 🧩", &[]),
                    seen_block(
                        &[0, 0, 0],
                        "Grandchild line one\nline two [[Nested Page]]",
                        &[],
                    ),
                    seen_block(
                        &[0, 1],
                        "DOING generated sparse #keep [[Policy Page]]",
                        &[
                            ("policy", "retained"),
                            ("id", "00000000-0000-0000-0000-000000000097"),
                        ],
                    ),
                    seen_block(&[0, 2], "Duplicate sibling 🧩", &[]),
                    seen_block(
                        &[1],
                        "DONE User-owned #review [[Other Page]]",
                        &[
                            ("owner", "María"),
                            ("status", "approved"),
                            ("id", "00000000-0000-0000-0000-000000000098"),
                        ],
                    ),
                ],
            ),
            dense_only: vec![
                (vec![0], logseq(101)),
                (vec![0, 0], logseq(102)),
                (vec![0, 0, 0], logseq(104)),
                (vec![0, 2], logseq(105)),
            ],
            sparse_generated: vec![(BlockId::from_uuid(uuid(103)), sparse_policy_id)],
            user_authored: vec![
                "owner:: María".to_string(),
                "status:: approved".to_string(),
                format!("id:: {user_authored_id}"),
            ],
            expect_crlf: true,
        }
    };

    let org = {
        let user_authored_id = shown(logseq(251));
        let block_ref = shown(logseq(252));
        let preamble = "#+TITLE: Org corpus\n#+PROPERTY: CATEGORY research";
        let mut state = page(
            "journals/研究/Δ corpus.org",
            vec![
                block(204, Some(201), "c", "Duplicate Org sibling 🧩", None),
                block(
                    205,
                    None,
                    "z",
                    format!(
                        "DONE User org :review:\n:PROPERTIES:\n:owner: Κατερίνα\n:state: retained\n:id: {user_authored_id}\n:END:\nbody [[Other Org]]"
                    ),
                    Some(logseq(251)),
                ),
                block(
                    201,
                    None,
                    "a",
                    format!(
                        "TODO Org parent :orgtag:\nSCHEDULED: <2026-08-01 Sat>\n:PROPERTIES:\n:custom: αβ\n:END:\nmultiline 日本語 [[Linked Page][alias]] (({block_ref}))"
                    ),
                    None,
                ),
                block(
                    203,
                    Some(202),
                    "a",
                    "Org grandchild\ncontinued [[Nested Org]]",
                    None,
                ),
                block(202, Some(201), "a", "Duplicate Org sibling 🧩", None),
            ],
        );
        state.page.preamble = Some(preamble.as_bytes().to_vec());
        DenseSparseCase {
            state,
            base: None,
            expected: (
                Some(preamble.to_string()),
                vec![
                    seen_block(
                        &[0],
                        "TODO Org parent :orgtag:\nSCHEDULED: <2026-08-01 Sat>\nmultiline 日本語 [[Linked Page][alias]] ((00000000-0000-0000-0000-0000000000fc))",
                        &[("custom", "αβ")],
                    ),
                    seen_block(&[0, 0], "Duplicate Org sibling 🧩", &[]),
                    seen_block(
                        &[0, 0, 0],
                        "Org grandchild\ncontinued [[Nested Org]]",
                        &[],
                    ),
                    seen_block(&[0, 1], "Duplicate Org sibling 🧩", &[]),
                    seen_block(
                        &[1],
                        "DONE User org :review:\nbody [[Other Org]]",
                        &[
                            ("owner", "Κατερίνα"),
                            ("state", "retained"),
                            ("id", "00000000-0000-0000-0000-0000000000fb"),
                        ],
                    ),
                ],
            ),
            dense_only: vec![
                (vec![0], logseq(201)),
                (vec![0, 0], logseq(202)),
                (vec![0, 0, 0], logseq(203)),
                (vec![0, 1], logseq(204)),
            ],
            sparse_generated: Vec::new(),
            user_authored: vec![
                ":owner: Κατερίνα".to_string(),
                ":state: retained".to_string(),
                format!(":id: {user_authored_id}"),
            ],
            expect_crlf: false,
        }
    };

    for case in [markdown, org] {
        let format = format_of(case.state.page.path.as_str());
        let sparse = render_projection(&case.state, case.base).unwrap();
        let dense = render_projection(&dense(&case.state), case.base).unwrap();
        let sparse_seen = seen(format, &sparse.target, &[]);
        let dense_unfiltered = seen(format, &dense.target, &[]);
        let dense_seen = seen(format, &dense.target, &case.dense_only);
        let generated: Vec<(BlockId, LogseqUuid)> = sparse
            .generated_anchors
            .iter()
            .map(|anchor| (anchor.block_id(), anchor.logseq_uuid()))
            .collect();
        assert_eq!(generated, case.sparse_generated);
        assert_eq!(sparse_seen, case.expected);
        assert_eq!(dense_seen, case.expected);
        assert_eq!(sparse_seen, dense_seen);
        let ids_at = |blocks: &[SeenBlock], locator: &[u32]| -> Vec<String> {
            let (_, _, properties) = blocks.iter().find(|block| block.0 == locator).unwrap();
            properties
                .iter()
                .filter(|(key, _)| key.eq_ignore_ascii_case("id"))
                .map(|(_, value)| value.clone())
                .collect()
        };
        for (locator, id) in &case.dense_only {
            assert!(ids_at(&dense_unfiltered.1, locator).contains(&shown(*id)));
            assert!(ids_at(&sparse_seen.1, locator).is_empty());
        }
        for fragment in &case.user_authored {
            assert!(text(&sparse.target).contains(fragment));
            assert!(text(&dense.target).contains(fragment));
        }
        for bytes in [&sparse.target, &dense.target] {
            let feeds = text(bytes).matches('\n').count();
            let returns = text(bytes).matches("\r\n").count();
            assert_eq!(returns, if case.expect_crlf { feeds } else { 0 });
            assert_eq!(text(bytes).matches('\r').count(), returns);
        }
    }
}

#[test]
fn org_existing_and_invalid_id_drawer_text_is_preserved() {
    let existing = logseq(600);
    let generated = logseq(601);
    let existing_text = shown(existing);
    let generated_text = shown(generated);
    let state = page(
        "pages/org-ids.org",
        vec![
            block(
                1,
                None,
                "a",
                format!("existing\n:PROPERTIES:\n:id: {existing_text}\n:custom: keep\n:END:"),
                Some(existing),
            ),
            generated_block(
                2,
                None,
                "b",
                "invalid\n:PROPERTIES:\n:id: invalid-raw\n:custom: keep-too\n:END:",
                generated,
                PolicyGeneratedAnchorReason::CopiedDeepLink,
            ),
        ],
    );
    let result = plan(&state, None);
    let rendered = text(result.target());
    assert_eq!(rendered.matches(&existing_text).count(), 1);
    assert!(rendered.contains(":id: invalid-raw"));
    assert!(rendered.contains(&format!(":id: {generated_text}")));
    assert!(rendered.contains(":id: invalid-raw\n:custom: keep-too"));
    assert_eq!(
        rendered,
        format!(
            "* existing\n:PROPERTIES:\n:id: {existing_text}\n:custom: keep\n:END:\n* invalid\n:PROPERTIES:\n:id: invalid-raw\n:custom: keep-too\n:id: {generated_text}\n:END:\n"
        )
    );
}
