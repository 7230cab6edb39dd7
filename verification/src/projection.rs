//! Projection of a subscription runtime's session onto the agent's event
//! stream: per-block offsets, answer drafts within a byte budget, the
//! selected final answer, and usage. Sending is the caller's: a step first
//! says what to emit, and once that is sent the caller commits the step.

use vstd::prelude::*;

use crate::events::StreamBlockChannel;
use crate::llm::Usage;
use crate::string_map::{entries_map, entry_keys, key_index, keys_unique, lemma_entries_map, StringMap};
use crate::text::{
    byte_len, chars_of, is_blank, join_chars, join_with, lemma_byte_len_concat,
    lemma_str_len_is_byte_len, starts_with, string_of, vec_views,
};

verus! {

/// Bytes one block, the answer drafts together, or the assembled answer
/// may hold.
pub const MAX_BLOCK_BYTES: usize = 4194304;

/// Blocks whose offsets or completion the projection tracks.
pub const MAX_TRACKED_BLOCKS: usize = 2048;

/// Why the projection refused an event.
#[derive(Debug, Clone, Copy, PartialEq, Eq, Structural)]
pub enum ProjectionError {
    EventProtocolBound,
    AnswerHistoryBudget,
    CompletedBlockBudget,
    AnswerRecordBound,
    IncompleteBlock,
    MissingBlock,
    AssembledAnswerBudget,
}

impl ProjectionError {
    pub open spec fn message_text(self) -> Seq<char> {
        match self {
            ProjectionError::EventProtocolBound => "upstream output exceeded the bounded event protocol"@,
            ProjectionError::AnswerHistoryBudget => "subscription answer history exceeded its byte budget"@,
            ProjectionError::CompletedBlockBudget => "subscription completed-block budget exceeded"@,
            ProjectionError::AnswerRecordBound => "upstream answer exceeded the bounded event protocol"@,
            ProjectionError::IncompleteBlock => "answer response contains an incomplete block"@,
            ProjectionError::MissingBlock => "answer response block is missing"@,
            ProjectionError::AssembledAnswerBudget => "assembled response exceeds its byte budget"@,
        }
    }

    pub fn message(self) -> (s: &'static str)
        ensures
            s@ == self.message_text(),
    {
        match self {
            ProjectionError::EventProtocolBound => "upstream output exceeded the bounded event protocol",
            ProjectionError::AnswerHistoryBudget => "subscription answer history exceeded its byte budget",
            ProjectionError::CompletedBlockBudget => "subscription completed-block budget exceeded",
            ProjectionError::AnswerRecordBound => "upstream answer exceeded the bounded event protocol",
            ProjectionError::IncompleteBlock => "answer response contains an incomplete block",
            ProjectionError::MissingBlock => "answer response block is missing",
            ProjectionError::AssembledAnswerBudget => "assembled response exceeds its byte budget",
        }
    }
}

/// An event the projection asks to emit.
#[derive(Debug, Clone, PartialEq, Eq)]
pub enum ProjectionEmit {
    /// Text appended to a block at a byte offset.
    Delta { block_id: String, channel: StreamBlockChannel, offset: usize, delta: String },
    /// A block's whole answer text, replacing what was shown.
    Snapshot { block_id: String, text: String },
}

pub enum EmitView {
    Delta(Seq<char>, StreamBlockChannel, usize, Seq<char>),
    Snapshot(Seq<char>, Seq<char>),
}

impl View for ProjectionEmit {
    type V = EmitView;

    open spec fn view(&self) -> EmitView {
        match self {
            ProjectionEmit::Delta { block_id, channel, offset, delta } => EmitView::Delta(
                block_id@,
                *channel,
                *offset,
                delta@,
            ),
            ProjectionEmit::Snapshot { block_id, text } => EmitView::Snapshot(block_id@, text@),
        }
    }
}

pub open spec fn emit_result_view(r: Result<Option<ProjectionEmit>, ProjectionError>) -> Result<
    Option<EmitView>,
    ProjectionError,
> {
    match r {
        Ok(Some(e)) => Ok(Some(e@)),
        Ok(None) => Ok(None),
        Err(e) => Err(e),
    }
}

/// The projection's state, mathematically.
pub struct ProjectionView {
    pub offsets: Map<Seq<char>, usize>,
    pub completed: Set<Seq<char>>,
    /// Answer drafts in the order their blocks first appeared.
    pub drafts: Seq<(Seq<char>, Seq<char>)>,
    pub draft_bytes: usize,
    pub async_messages: Seq<(Seq<char>, Seq<char>)>,
    pub answer: Seq<char>,
    pub answer_block_ids: Seq<Seq<char>>,
    pub usage: Usage,
    pub last_prompt_tokens: u32,
}

/// Total bytes of the drafts.
pub open spec fn drafts_bytes(d: Seq<(Seq<char>, Seq<char>)>) -> nat
    decreases d.len(),
{
    if d.len() == 0 {
        0
    } else {
        drafts_bytes(d.drop_last()) + byte_len(d.last().1)
    }
}

pub open spec fn has_draft(d: Seq<(Seq<char>, Seq<char>)>, id: Seq<char>) -> bool {
    entries_map(d).contains_key(id)
}

/// A block's draft, empty when it has none.
pub open spec fn draft_of(d: Seq<(Seq<char>, Seq<char>)>, id: Seq<char>) -> Seq<char> {
    if has_draft(d, id) {
        entries_map(d)[id]
    } else {
        Seq::empty()
    }
}

/// Sets a block's draft, in place or after the others.
pub open spec fn set_draft(d: Seq<(Seq<char>, Seq<char>)>, id: Seq<char>, text: Seq<char>) -> Seq<(Seq<char>, Seq<char>)> {
    match key_index(entry_keys(d), id) {
        Some(i) => d.update(i, (id, text)),
        None => d.push((id, text)),
    }
}

/// Drops a block's draft.
pub open spec fn remove_draft(d: Seq<(Seq<char>, Seq<char>)>, id: Seq<char>) -> Seq<(Seq<char>, Seq<char>)> {
    match key_index(entry_keys(d), id) {
        Some(i) => d.remove(i),
        None => d,
    }
}

pub proof fn lemma_drafts_bytes_update(d: Seq<(Seq<char>, Seq<char>)>, i: int, x: (Seq<char>, Seq<char>))
    requires
        0 <= i < d.len(),
    ensures
        drafts_bytes(d.update(i, x)) + byte_len(d[i].1) == drafts_bytes(d) + byte_len(x.1),
    decreases d.len(),
{
    if i < d.len() - 1 {
        assert(d.update(i, x).drop_last() =~= d.drop_last().update(i, x));
        lemma_drafts_bytes_update(d.drop_last(), i, x);
    } else {
        assert(d.update(i, x).drop_last() =~= d.drop_last());
    }
}

pub proof fn lemma_drafts_bytes_remove(d: Seq<(Seq<char>, Seq<char>)>, i: int)
    requires
        0 <= i < d.len(),
    ensures
        drafts_bytes(d.remove(i)) + byte_len(d[i].1) == drafts_bytes(d),
    decreases d.len(),
{
    if i < d.len() - 1 {
        assert(d.remove(i).drop_last() =~= d.drop_last().remove(i));
        lemma_drafts_bytes_remove(d.drop_last(), i);
        assert(d.remove(i).last() == d.last());
    } else {
        assert(d.remove(i) =~= d.drop_last());
    }
}

/// A draft's bytes are part of the total.
pub proof fn lemma_draft_within(d: Seq<(Seq<char>, Seq<char>)>, id: Seq<char>)
    requires
        keys_unique(d),
    ensures
        byte_len(draft_of(d, id)) <= drafts_bytes(d),
{
    lemma_entries_map(d);
    if has_draft(d, id) {
        let i = choose|i: int| 0 <= i < entry_keys(d).len() && entry_keys(d)[i] == id;
        assert(d[i].0 == id);
        assert(entries_map(d)[d[i].0] == d[i].1);
        lemma_drafts_bytes_remove(d, i);
    }
}

/// Prepends parts to a selection result.
pub open spec fn prepend_parts(head: Seq<Seq<char>>, r: Result<Seq<Seq<char>>, ProjectionError>) -> Result<
    Seq<Seq<char>>,
    ProjectionError,
> {
    match r {
        Ok(rest) => Ok(head + rest),
        Err(e) => Err(e),
    }
}

pub open spec fn ids_view(ids: Seq<String>) -> Seq<Seq<char>> {
    ids.map_values(|s: String| s@)
}

/// The answer once persisted: its blocks' drafts dropped, the answer
/// cleared.
pub open spec fn after_answer_persisted(p: ProjectionView) -> ProjectionView {
    ProjectionView {
        answer: Seq::empty(),
        answer_block_ids: Seq::empty(),
        ..after_mark_all(p, p.answer_block_ids)
    }
}

/// The usage after a usage report: input and output tokens (each capped at
/// `u32::MAX`, zero when absent) are added with saturation, and the input
/// becomes the last prompt size.
pub open spec fn after_usage(p: ProjectionView, input: Option<u64>, output: Option<u64>) -> ProjectionView {
    let prompt = sat_add_u32(p.usage.prompt_tokens, opt_tokens(input));
    let completion = sat_add_u32(p.usage.completion_tokens, opt_tokens(output));
    ProjectionView {
        usage: Usage {
            prompt_tokens: prompt,
            completion_tokens: completion,
            total_tokens: sat_add_u32(prompt, completion),
            ..p.usage
        },
        last_prompt_tokens: opt_tokens(input),
        ..p
    }
}

pub open spec fn opt_tokens(o: Option<u64>) -> u32 {
    match o {
        Some(v) => if v > u32::MAX {
            u32::MAX
        } else {
            v as u32
        },
        None => 0,
    }
}

pub open spec fn sat_add_u32(a: u32, b: u32) -> u32 {
    if a + b > u32::MAX {
        u32::MAX
    } else {
        (a + b) as u32
    }
}

/// What a delta does before it is sent: nothing for an empty delta or a
/// completed block; an error past the bounds; otherwise the event to emit,
/// with the block's offset entry created.
pub open spec fn delta_outcome(p: ProjectionView, id: Seq<char>, channel: StreamBlockChannel, delta: Seq<char>) -> (
    ProjectionView,
    Result<Option<EmitView>, ProjectionError>,
) {
    if delta.len() == 0 || p.completed.contains(id) {
        (p, Ok(None))
    } else if p.offsets.dom().len() > MAX_TRACKED_BLOCKS {
        (p, Err(ProjectionError::EventProtocolBound))
    } else {
        let q = ProjectionView {
            offsets: if p.offsets.contains_key(id) {
                p.offsets
            } else {
                p.offsets.insert(id, 0)
            },
            ..p
        };
        let offset = q.offsets[id];
        if offset + byte_len(delta) > MAX_BLOCK_BYTES {
            (q, Err(ProjectionError::EventProtocolBound))
        } else if channel == StreamBlockChannel::Answer && p.draft_bytes + byte_len(delta)
            > MAX_BLOCK_BYTES {
            (q, Err(ProjectionError::AnswerHistoryBudget))
        } else {
            (q, Ok(Some(EmitView::Delta(id, channel, offset, delta))))
        }
    }
}

/// A delta can be committed: it is not empty, its block is open and has an
/// offset, and both fit their bounds.
pub open spec fn delta_committable(p: ProjectionView, id: Seq<char>, channel: StreamBlockChannel, delta: Seq<char>) -> bool {
    &&& delta.len() > 0
    &&& !p.completed.contains(id)
    &&& p.offsets.contains_key(id)
    &&& p.offsets[id] + byte_len(delta) <= MAX_BLOCK_BYTES
    &&& channel == StreamBlockChannel::Answer ==> p.draft_bytes + byte_len(delta) <= MAX_BLOCK_BYTES
}

/// The state once a sent delta is committed: the offset advances, and an
/// answer delta extends the block's draft.
pub open spec fn after_delta(p: ProjectionView, id: Seq<char>, channel: StreamBlockChannel, delta: Seq<char>) -> ProjectionView {
    if !delta_committable(p, id, channel, delta) {
        p
    } else {
        let q = ProjectionView {
            offsets: p.offsets.insert(id, (p.offsets[id] + byte_len(delta)) as usize),
            ..p
        };
        if channel == StreamBlockChannel::Answer {
            ProjectionView {
                drafts: set_draft(p.drafts, id, draft_of(p.drafts, id) + delta),
                draft_bytes: (p.draft_bytes + byte_len(delta)) as usize,
                ..q
            }
        } else {
            q
        }
    }
}

/// What a block's full record does before anything is sent: budget errors;
/// for an open block whose draft the record extends, the delta of the rest;
/// for a different record, a snapshot; nothing when it equals the draft.
pub open spec fn complete_outcome(p: ProjectionView, id: Seq<char>, text: Seq<char>) -> (
    ProjectionView,
    Result<Option<EmitView>, ProjectionError>,
) {
    let draft = draft_of(p.drafts, id);
    if !p.completed.contains(id) && p.completed.len() >= MAX_TRACKED_BLOCKS {
        (p, Err(ProjectionError::CompletedBlockBudget))
    } else if byte_len(text) > MAX_BLOCK_BYTES {
        (p, Err(ProjectionError::AnswerRecordBound))
    } else if p.draft_bytes - byte_len(draft) + byte_len(text) > MAX_BLOCK_BYTES {
        (p, Err(ProjectionError::AnswerHistoryBudget))
    } else if !p.completed.contains(id) && starts_with(text, draft) {
        delta_outcome(p, id, StreamBlockChannel::Answer, text.skip(draft.len() as int))
    } else if draft != text {
        (p, Ok(Some(EmitView::Snapshot(id, text))))
    } else {
        (p, Ok(None))
    }
}

/// The state once a full record is committed: the block is completed, its
/// offset is the record's length and its draft the record.
pub open spec fn after_complete(p: ProjectionView, id: Seq<char>, text: Seq<char>) -> ProjectionView {
    let previous = byte_len(draft_of(p.drafts, id));
    if p.draft_bytes - previous + byte_len(text) > MAX_BLOCK_BYTES {
        p
    } else {
        ProjectionView {
            completed: p.completed.insert(id),
            offsets: p.offsets.insert(id, byte_len(text) as usize),
            drafts: set_draft(p.drafts, id, text),
            draft_bytes: (p.draft_bytes - previous + byte_len(text)) as usize,
            ..p
        }
    }
}

/// The non-empty drafts of the selected blocks, or the first selection
/// error.
pub open spec fn answer_parts(p: ProjectionView, ids: Seq<Seq<char>>) -> Result<Seq<Seq<char>>, ProjectionError>
    decreases ids.len(),
{
    if ids.len() == 0 {
        Ok(Seq::empty())
    } else if !p.completed.contains(ids[0]) {
        Err(ProjectionError::IncompleteBlock)
    } else if !has_draft(p.drafts, ids[0]) {
        Err(ProjectionError::MissingBlock)
    } else {
        match answer_parts(p, ids.drop_first()) {
            Err(e) => Err(e),
            Ok(rest) => Ok(
                if draft_of(p.drafts, ids[0]).len() > 0 {
                    seq![draft_of(p.drafts, ids[0])] + rest
                } else {
                    rest
                },
            ),
        }
    }
}

/// Selecting the blocks that make up the answer: their drafts joined by a
/// blank line, within the byte budget.
pub open spec fn after_select(p: ProjectionView, ids: Seq<Seq<char>>) -> Result<ProjectionView, ProjectionError> {
    match answer_parts(p, ids) {
        Err(e) => Err(e),
        Ok(parts) => {
            let answer = join_with(parts, "\n\n"@);
            if byte_len(answer) > MAX_BLOCK_BYTES {
                Err(ProjectionError::AssembledAnswerBudget)
            } else {
                Ok(ProjectionView { answer, answer_block_ids: ids, ..p })
            }
        },
    }
}

/// A persisted block's draft is dropped from the budget.
pub open spec fn after_mark(p: ProjectionView, id: Seq<char>) -> ProjectionView {
    if has_draft(p.drafts, id) {
        ProjectionView {
            drafts: remove_draft(p.drafts, id),
            draft_bytes: (p.draft_bytes - byte_len(draft_of(p.drafts, id))) as usize,
            ..p
        }
    } else {
        p
    }
}

pub open spec fn after_mark_all(p: ProjectionView, ids: Seq<Seq<char>>) -> ProjectionView
    decreases ids.len(),
{
    if ids.len() == 0 {
        p
    } else {
        after_mark_all(after_mark(p, ids[0]), ids.drop_first())
    }
}

/// The non-blank drafts, in order.
pub open spec fn partial_parts(d: Seq<(Seq<char>, Seq<char>)>) -> Seq<Seq<char>>
    decreases d.len(),
{
    if d.len() == 0 {
        Seq::empty()
    } else {
        let rest = partial_parts(d.drop_last());
        if !is_blank(d.last().1) {
            rest.push(d.last().1)
        } else {
            rest
        }
    }
}

/// The state of a subscription turn's projection.
#[derive(Debug)]
pub struct Projection {
    offsets: StringMap<usize>,
    completed: StringMap<bool>,
    drafts: StringMap<String>,
    draft_bytes: usize,
    async_messages: Vec<(String, String)>,
    pub answer: String,
    answer_block_ids: Vec<String>,
    pub usage: Usage,
    pub last_prompt_tokens: u32,
}

pub open spec fn pairs_view(v: Seq<(String, String)>) -> Seq<(Seq<char>, Seq<char>)> {
    v.map_values(|e: (String, String)| (e.0@, e.1@))
}

impl View for Projection {
    type V = ProjectionView;

    closed spec fn view(&self) -> ProjectionView {
        ProjectionView {
            offsets: self.offsets.map(),
            completed: self.completed.map().dom(),
            drafts: self.drafts.view_entries(),
            draft_bytes: self.draft_bytes,
            async_messages: pairs_view(self.async_messages@),
            answer: self.answer@,
            answer_block_ids: self.answer_block_ids@.map_values(|s: String| s@),
            usage: self.usage,
            last_prompt_tokens: self.last_prompt_tokens,
        }
    }
}

impl Projection {
    /// The drafts' byte total is what `draft_bytes` holds.
    pub closed spec fn wf(&self) -> bool {
        &&& self.offsets.wf()
        &&& self.completed.wf()
        &&& self.drafts.wf()
        &&& self.draft_bytes as nat == drafts_bytes(self.drafts.view_entries())
        &&& self.draft_bytes <= MAX_BLOCK_BYTES
        &&& forall|k: Seq<char>| #[trigger]
            self.offsets.map().contains_key(k) ==> self.offsets.map()[k] <= MAX_BLOCK_BYTES
    }

    pub fn new() -> (p: Projection)
        ensures
            p.wf(),
            p@.offsets == Map::<Seq<char>, usize>::empty(),
            p@.completed == Set::<Seq<char>>::empty(),
            p@.drafts == Seq::<(Seq<char>, Seq<char>)>::empty(),
            p@.draft_bytes == 0,
            p@.async_messages == Seq::<(Seq<char>, Seq<char>)>::empty(),
            p@.answer == Seq::<char>::empty(),
            p@.answer_block_ids == Seq::<Seq<char>>::empty(),
            p@.usage == (Usage {
                prompt_tokens: 0,
                completion_tokens: 0,
                total_tokens: 0,
                thinking_tokens: None,
                cache_read_tokens: None,
                cache_miss_tokens: None,
                cache_creation_tokens: None,
            }),
            p@.last_prompt_tokens == 0,
    {
        let p = Projection {
            offsets: StringMap::new(),
            completed: StringMap::new(),
            drafts: StringMap::new(),
            draft_bytes: 0,
            async_messages: Vec::new(),
            answer: String::new(),
            answer_block_ids: Vec::new(),
            usage: Usage {
                prompt_tokens: 0,
                completion_tokens: 0,
                total_tokens: 0,
                thinking_tokens: None,
                cache_read_tokens: None,
                cache_miss_tokens: None,
                cache_creation_tokens: None,
            },
            last_prompt_tokens: 0,
        };
        assert(p.offsets.map() =~= Map::<Seq<char>, usize>::empty());
        assert(p.completed.map().dom() =~= Set::<Seq<char>>::empty());
        assert(p.drafts.view_entries() =~= Seq::<(Seq<char>, Seq<char>)>::empty());
        assert(pairs_view(p.async_messages@) =~= Seq::<(Seq<char>, Seq<char>)>::empty());
        assert(p.answer_block_ids@.map_values(|s: String| s@) =~= Seq::<Seq<char>>::empty());
        p
    }
}

/// Byte length of a string slice.
fn str_bytes(s: &str) -> (n: usize)
    ensures
        n == byte_len(s@),
{
    proof {
        lemma_str_len_is_byte_len(s@);
    }
    s.as_bytes().len()
}

fn owned(s: &str) -> (r: String)
    ensures
        r@ == s@,
{
    let mut r = String::new();
    r.append(s);
    r
}

impl Projection {
    /// A block's draft, empty when it has none.
    fn draft_text(&self, id: &str) -> (t: String)
        requires
            self.drafts.wf(),
        ensures
            t@ == draft_of(self@.drafts, id@),
            has_draft(self@.drafts, id@) == self.drafts.map().contains_key(id@),
    {
        proof {
            self.drafts.lemma_view_entries();
        }
        match self.drafts.get(id) {
            Some(text) => text.clone(),
            None => String::new(),
        }
    }

    /// Sets a block's draft; the drafts' byte total changes by the
    /// difference.
    fn put_draft(&mut self, id: &str, text: String)
        requires
            old(self).drafts.wf(),
        ensures
            final(self).drafts.wf(),
            final(self)@.drafts == set_draft(old(self)@.drafts, id@, text@),
            drafts_bytes(final(self)@.drafts) + byte_len(draft_of(old(self)@.drafts, id@))
                == drafts_bytes(old(self)@.drafts) + byte_len(text@),
            final(self).offsets == old(self).offsets,
            final(self).completed == old(self).completed,
            final(self).draft_bytes == old(self).draft_bytes,
            final(self).async_messages == old(self).async_messages,
            final(self).answer == old(self).answer,
            final(self).answer_block_ids == old(self).answer_block_ids,
            final(self).usage == old(self).usage,
            final(self).last_prompt_tokens == old(self).last_prompt_tokens,
    {
        let ghost before = self.drafts.view_entries();
        let ghost text_view = text@;
        proof {
            self.drafts.lemma_view_entries();
            lemma_entries_map(before);
        }
        self.drafts.insert(id, text);
        proof {
            let after = self.drafts.view_entries();
            match key_index(entry_keys(before), id@) {
                Some(i) => {
                    assert(after =~= before.update(i, (id@, text_view)));
                    let j = choose|j: int| 0 <= j < entry_keys(before).len() && entry_keys(before)[j] == id@;
                    assert(i == j);
                    assert(before[i].0 == id@);
                    assert(entries_map(before)[before[i].0] == before[i].1);
                    lemma_drafts_bytes_update(before, i, (id@, text_view));
                },
                None => {
                    assert(after =~= before.push((id@, text_view)));
                    assert(after.drop_last() =~= before);
                },
            }
        }
    }

    /// Drops a block's draft and gives it back.
    fn take_draft(&mut self, id: &str) -> (r: Option<String>)
        requires
            old(self).drafts.wf(),
        ensures
            final(self).drafts.wf(),
            final(self)@.drafts == remove_draft(old(self)@.drafts, id@),
            match r {
                Some(t) => has_draft(old(self)@.drafts, id@) && t@ == draft_of(old(self)@.drafts, id@),
                None => !has_draft(old(self)@.drafts, id@),
            },
            drafts_bytes(final(self)@.drafts) + byte_len(draft_of(old(self)@.drafts, id@))
                == drafts_bytes(old(self)@.drafts),
            final(self).offsets == old(self).offsets,
            final(self).completed == old(self).completed,
            final(self).draft_bytes == old(self).draft_bytes,
            final(self).async_messages == old(self).async_messages,
            final(self).answer == old(self).answer,
            final(self).answer_block_ids == old(self).answer_block_ids,
            final(self).usage == old(self).usage,
            final(self).last_prompt_tokens == old(self).last_prompt_tokens,
    {
        let ghost before = self.drafts.view_entries();
        proof {
            self.drafts.lemma_view_entries();
            lemma_entries_map(before);
        }
        let r = self.drafts.remove(id);
        proof {
            let after = self.drafts.view_entries();
            match key_index(entry_keys(before), id@) {
                Some(i) => {
                    assert(after =~= before.remove(i));
                    let j = choose|j: int| 0 <= j < entry_keys(before).len() && entry_keys(before)[j] == id@;
                    assert(i == j);
                    assert(before[i].0 == id@);
                    assert(entries_map(before)[before[i].0] == before[i].1);
                    lemma_drafts_bytes_remove(before, i);
                },
                None => {
                    assert(after =~= before);
                },
            }
        }
        r
    }

    /// What a delta does before it is sent; see [`delta_outcome`].
    pub fn delta_event(&mut self, id: &str, channel: StreamBlockChannel, delta: &str) -> (r: Result<
        Option<ProjectionEmit>,
        ProjectionError,
    >)
        requires
            old(self).wf(),
        ensures
            final(self).wf(),
            (final(self)@, emit_result_view(r)) == delta_outcome(old(self)@, id@, channel, delta@),
            r matches Ok(Some(_)) ==> delta_committable(final(self)@, id@, channel, delta@),
    {
        if delta.is_empty() || self.completed.contains_key(id) {
            return Ok(None);
        }
        if self.offsets.len() > MAX_TRACKED_BLOCKS {
            return Err(ProjectionError::EventProtocolBound);
        }
        let ghost before = self.offsets.map();
        let offset = match self.offsets.get(id) {
            Some(o) => *o,
            None => {
                self.offsets.insert(id, 0);
                0
            },
        };
        proof {
            if before.contains_key(id@) {
                assert(before.insert(id@, before[id@]) =~= before);
            }
            assert forall|k: Seq<char>| #[trigger]
                self.offsets.map().contains_key(k) implies self.offsets.map()[k] <= MAX_BLOCK_BYTES by {
                if k != id@ {
                    assert(before.contains_key(k));
                }
            }
        }
        let n = str_bytes(delta);
        if n > MAX_BLOCK_BYTES - offset {
            return Err(ProjectionError::EventProtocolBound);
        }
        if channel == StreamBlockChannel::Answer && n > MAX_BLOCK_BYTES - self.draft_bytes {
            return Err(ProjectionError::AnswerHistoryBudget);
        }
        Ok(Some(ProjectionEmit::Delta { block_id: owned(id), channel, offset, delta: owned(delta) }))
    }

    /// Commits a sent delta; see [`after_delta`].
    pub fn commit_delta(&mut self, id: &str, channel: StreamBlockChannel, delta: &str)
        requires
            old(self).wf(),
        ensures
            final(self).wf(),
            final(self)@ == after_delta(old(self)@, id@, channel, delta@),
    {
        if delta.is_empty() || self.completed.contains_key(id) {
            return;
        }
        let offset = match self.offsets.get(id) {
            Some(o) => *o,
            None => {
                return;
            },
        };
        let n = str_bytes(delta);
        if n > MAX_BLOCK_BYTES - offset {
            return;
        }
        if channel == StreamBlockChannel::Answer && n > MAX_BLOCK_BYTES - self.draft_bytes {
            return;
        }
        let ghost before = self.offsets.map();
        self.offsets.insert(id, offset + n);
        proof {
            assert forall|k: Seq<char>| #[trigger]
                self.offsets.map().contains_key(k) implies self.offsets.map()[k] <= MAX_BLOCK_BYTES by {
                if k != id@ {
                    assert(before.contains_key(k));
                }
            }
        }
        if channel == StreamBlockChannel::Answer {
            let mut text = self.draft_text(id);
            let ghost previous = text@;
            text.append(delta);
            proof {
                lemma_byte_len_concat(previous, delta@);
            }
            self.put_draft(id, text);
            self.draft_bytes = self.draft_bytes + n;
        }
    }
}

impl Projection {
    /// What a block's full record does before anything is sent; see
    /// [`complete_outcome`].
    pub fn complete_event(&mut self, id: &str, text: &str) -> (r: Result<
        Option<ProjectionEmit>,
        ProjectionError,
    >)
        requires
            old(self).wf(),
        ensures
            final(self).wf(),
            (final(self)@, emit_result_view(r)) == complete_outcome(old(self)@, id@, text@),
    {
        let is_completed = self.completed.contains_key(id);
        if !is_completed && self.completed.len() >= MAX_TRACKED_BLOCKS {
            return Err(ProjectionError::CompletedBlockBudget);
        }
        let n = str_bytes(text);
        if n > MAX_BLOCK_BYTES {
            return Err(ProjectionError::AnswerRecordBound);
        }
        let draft = self.draft_text(id);
        let previous = str_bytes(draft.as_str());
        proof {
            self.drafts.lemma_view_entries();
            lemma_draft_within(self@.drafts, id@);
        }
        if self.draft_bytes - previous + n > MAX_BLOCK_BYTES {
            return Err(ProjectionError::AnswerHistoryBudget);
        }
        let t = chars_of(text);
        let d = chars_of(draft.as_str());
        if !is_completed && crate::text::starts_with_chars(t.as_slice(), d.as_slice()) {
            let rest = crate::text::slice_chars(t.as_slice(), d.len(), t.len());
            assert(rest@ =~= text@.skip(draft@.len() as int));
            let suffix = string_of(rest.as_slice());
            return self.delta_event(id, StreamBlockChannel::Answer, suffix.as_str());
        }
        if !crate::text::chars_eq(d.as_slice(), t.as_slice()) {
            return Ok(Some(ProjectionEmit::Snapshot { block_id: owned(id), text: owned(text) }));
        }
        Ok(None)
    }

    /// Commits a block's full record; see [`after_complete`].
    pub fn commit_complete(&mut self, id: &str, text: &str)
        requires
            old(self).wf(),
        ensures
            final(self).wf(),
            final(self)@ == after_complete(old(self)@, id@, text@),
    {
        let draft = self.draft_text(id);
        let previous = str_bytes(draft.as_str());
        proof {
            self.drafts.lemma_view_entries();
            lemma_draft_within(self@.drafts, id@);
        }
        let n = str_bytes(text);
        if n > MAX_BLOCK_BYTES - (self.draft_bytes - previous) {
            return;
        }
        let ghost before_offsets = self.offsets.map();
        let ghost before_completed = self.completed.map();
        self.completed.insert(id, true);
        assert(self.completed.map().dom() =~= before_completed.dom().insert(id@));
        self.offsets.insert(id, n);
        proof {
            assert forall|k: Seq<char>| #[trigger]
                self.offsets.map().contains_key(k) implies self.offsets.map()[k] <= MAX_BLOCK_BYTES by {
                if k != id@ {
                    assert(before_offsets.contains_key(k));
                }
            }
        }
        self.put_draft(id, owned(text));
        self.draft_bytes = self.draft_bytes - previous + n;
    }
}

fn opt_tokens_exec(o: Option<u64>) -> (n: u32)
    ensures
        n == opt_tokens(o),
{
    match o {
        Some(v) => if v > u32::MAX as u64 {
            u32::MAX
        } else {
            v as u32
        },
        None => 0,
    }
}

impl Projection {
    /// Selects the blocks that make up the answer; see [`after_select`].
    pub fn select_answer_blocks(&mut self, ids: Vec<String>) -> (r: Result<(), ProjectionError>)
        requires
            old(self).wf(),
        ensures
            final(self).wf(),
            match after_select(old(self)@, ids_view(ids@)) {
                Ok(q) => r is Ok && final(self)@ == q,
                Err(e) => r == Err::<(), ProjectionError>(e) && final(self)@ == old(self)@,
            },
    {
        let ghost p = self@;
        let ghost all = ids_view(ids@);
        let mut parts: Vec<Vec<char>> = Vec::new();
        let mut i: usize = 0;
        assert(all.skip(0) =~= all);
        assert(vec_views(parts@) + Seq::<Seq<char>>::empty() =~= Seq::<Seq<char>>::empty());
        while i < ids.len()
            invariant
                i <= ids.len(),
                self.wf(),
                self@ == p,
                all == ids_view(ids@),
                answer_parts(p, all) == prepend_parts(vec_views(parts@), answer_parts(p, all.skip(i as int))),
            decreases ids.len() - i,
        {
            proof {
                assert(all.skip(i as int)[0] == ids@[i as int]@);
                assert(all.skip(i as int).drop_first() =~= all.skip(i + 1));
                self.drafts.lemma_view_entries();
            }
            if !self.completed.contains_key(ids[i].as_str()) {
                return Err(ProjectionError::IncompleteBlock);
            }
            let text = match self.drafts.get(ids[i].as_str()) {
                Some(t) => t,
                None => {
                    return Err(ProjectionError::MissingBlock);
                },
            };
            let ghost before = vec_views(parts@);
            if !text.as_str().is_empty() {
                parts.push(chars_of(text.as_str()));
                proof {
                    assert(vec_views(parts@) =~= before.push(text@));
                    match answer_parts(p, all.skip(i + 1)) {
                        Ok(rest) => {
                            assert(before + (seq![text@] + rest) =~= before.push(text@) + rest);
                        },
                        Err(_) => {},
                    }
                }
            }
            i = i + 1;
        }
        proof {
            assert(all.skip(i as int) =~= Seq::<Seq<char>>::empty());
            assert(vec_views(parts@) + Seq::<Seq<char>>::empty() =~= vec_views(parts@));
        }
        let sep = chars_of("\n\n");
        let joined = join_chars(&parts, sep.as_slice());
        if !crate::text::byte_len_at_most(joined.as_slice(), MAX_BLOCK_BYTES) {
            return Err(ProjectionError::AssembledAnswerBudget);
        }
        self.answer = string_of(joined.as_slice());
        self.answer_block_ids = ids;
        Ok(())
    }

    /// Drops a persisted block's draft; see [`after_mark`].
    pub fn mark_persisted(&mut self, id: &str)
        requires
            old(self).wf(),
        ensures
            final(self).wf(),
            final(self)@ == after_mark(old(self)@, id@),
    {
        proof {
            self.drafts.lemma_view_entries();
            lemma_draft_within(self@.drafts, id@);
            lemma_entries_map(self@.drafts);
        }
        match self.take_draft(id) {
            Some(text) => {
                let n = str_bytes(text.as_str());
                self.draft_bytes = self.draft_bytes - n;
            },
            None => {},
        }
    }

    pub fn clear_answer(&mut self)
        requires
            old(self).wf(),
        ensures
            final(self).wf(),
            final(self)@ == (ProjectionView {
                answer: Seq::empty(),
                answer_block_ids: Seq::empty(),
                ..old(self)@
            }),
    {
        self.answer = String::new();
        self.answer_block_ids = Vec::new();
        assert(ids_view(self.answer_block_ids@) =~= Seq::<Seq<char>>::empty());
        assert(self@.answer_block_ids =~= Seq::<Seq<char>>::empty());
    }

    /// The completed answer to persist, unless it is blank.
    pub fn completed_answer(&self) -> (r: Option<String>)
        ensures
            match r {
                Some(a) => !is_blank(self@.answer) && a@ == self@.answer,
                None => is_blank(self@.answer),
            },
    {
        let chars = chars_of(self.answer.as_str());
        if crate::text::chars_are_blank(chars.as_slice()) {
            None
        } else {
            Some(self.answer.clone())
        }
    }

    /// Records that the completed answer was persisted; see
    /// [`after_answer_persisted`].
    pub fn answer_persisted(&mut self)
        requires
            old(self).wf(),
        ensures
            final(self).wf(),
            final(self)@ == after_answer_persisted(old(self)@),
    {
        let ghost p = self@;
        let mut ids: Vec<String> = Vec::new();
        std::mem::swap(&mut ids, &mut self.answer_block_ids);
        let ghost all = ids_view(ids@);
        let mut i: usize = 0;
        assert(all.skip(0) =~= all);
        while i < ids.len()
            invariant
                i <= ids.len(),
                self.wf(),
                all == ids_view(ids@),
                all == p.answer_block_ids,
                self@.answer == p.answer,
                after_mark_all(p, all) == after_mark_all(
                    ProjectionView { answer_block_ids: p.answer_block_ids, ..self@ },
                    all.skip(i as int),
                ),
            decreases ids.len() - i,
        {
            assert(all.skip(i as int)[0] == ids@[i as int]@);
            assert(all.skip(i as int).drop_first() =~= all.skip(i + 1));
            self.mark_persisted(ids[i].as_str());
            i = i + 1;
        }
        assert(all.skip(i as int) =~= Seq::<Seq<char>>::empty());
        self.clear_answer();
    }

    pub fn queue_async_message(&mut self, id: String, text: String)
        requires
            old(self).wf(),
        ensures
            final(self).wf(),
            final(self)@ == (ProjectionView {
                async_messages: old(self)@.async_messages.push((id@, text@)),
                ..old(self)@
            }),
    {
        let ghost before = pairs_view(self.async_messages@);
        self.async_messages.push((id, text));
        assert(pairs_view(self.async_messages@) =~= before.push((id@, text@)));
    }

    /// The oldest message that waits to be persisted.
    pub fn next_async_message(&self) -> (r: Option<(String, String)>)
        ensures
            match r {
                Some(m) => self@.async_messages.len() > 0 && (m.0@, m.1@) == self@.async_messages[0],
                None => self@.async_messages.len() == 0,
            },
    {
        if self.async_messages.len() == 0 {
            None
        } else {
            Some((self.async_messages[0].0.clone(), self.async_messages[0].1.clone()))
        }
    }

    /// Records that the oldest waiting message was persisted.
    pub fn async_message_persisted(&mut self)
        requires
            old(self).wf(),
        ensures
            final(self).wf(),
            old(self)@.async_messages.len() == 0 ==> final(self)@ == old(self)@,
            old(self)@.async_messages.len() > 0 ==> final(self)@ == after_mark(
                ProjectionView {
                    async_messages: old(self)@.async_messages.drop_first(),
                    ..old(self)@
                },
                old(self)@.async_messages[0].0,
            ),
    {
        if self.async_messages.len() == 0 {
            return;
        }
        let ghost before = pairs_view(self.async_messages@);
        let (id, _) = self.async_messages.remove(0);
        assert(pairs_view(self.async_messages@) =~= before.drop_first());
        self.mark_persisted(id.as_str());
    }

    /// The text to persist when a turn stops early: the non-blank drafts in
    /// order, joined by a blank line.
    pub fn partial_text(&self) -> (s: String)
        requires
            self.wf(),
        ensures
            s@ == join_with(partial_parts(self@.drafts), "\n\n"@),
    {
        let ghost d = self@.drafts;
        let n = self.drafts.len();
        let mut parts: Vec<Vec<char>> = Vec::new();
        let mut i: usize = 0;
        while i < n
            invariant
                i <= n,
                n == d.len(),
                d == self.drafts.view_entries(),
                vec_views(parts@) == partial_parts(d.take(i as int)),
            decreases n - i,
        {
            let (_, text) = self.drafts.entry(i);
            let chars = chars_of(text.as_str());
            proof {
                assert(d[i as int] == (self.drafts.entries()[i as int].0, self.drafts.entries()[i as int].1@));
                assert(d.take(i + 1).drop_last() =~= d.take(i as int));
                assert(d.take(i + 1).last() == d[i as int]);
            }
            if !crate::text::chars_are_blank(chars.as_slice()) {
                let ghost before = vec_views(parts@);
                parts.push(chars);
                assert(vec_views(parts@) =~= before.push(text@));
            }
            i = i + 1;
        }
        assert(d.take(n as int) =~= d);
        let sep = chars_of("\n\n");
        let joined = join_chars(&parts, sep.as_slice());
        string_of(joined.as_slice())
    }

    /// Adds a usage report; see [`after_usage`].
    pub fn record_usage(&mut self, input_tokens: Option<u64>, output_tokens: Option<u64>)
        requires
            old(self).wf(),
        ensures
            final(self).wf(),
            final(self)@ == after_usage(old(self)@, input_tokens, output_tokens),
    {
        let input = opt_tokens_exec(input_tokens);
        let output = opt_tokens_exec(output_tokens);
        self.usage.prompt_tokens = self.usage.prompt_tokens.saturating_add(input);
        self.last_prompt_tokens = input;
        self.usage.completion_tokens = self.usage.completion_tokens.saturating_add(output);
        self.usage.total_tokens = self.usage.prompt_tokens.saturating_add(self.usage.completion_tokens);
    }
}

impl Projection {
    /// Bytes the answer drafts hold together.
    pub fn draft_bytes(&self) -> (n: usize)
        ensures
            n == self@.draft_bytes,
    {
        self.draft_bytes
    }

    /// A block's answer draft, if it has one.
    pub fn draft(&self, id: &str) -> (r: Option<String>)
        requires
            self.wf(),
        ensures
            match r {
                Some(t) => has_draft(self@.drafts, id@) && t@ == draft_of(self@.drafts, id@),
                None => !has_draft(self@.drafts, id@),
            },
    {
        let t = self.draft_text(id);
        if self.drafts.contains_key(id) {
            Some(t)
        } else {
            None
        }
    }
}

/// Setting a draft keeps keys unique, and the draft reads back.
pub proof fn lemma_set_draft(d: Seq<(Seq<char>, Seq<char>)>, id: Seq<char>, text: Seq<char>)
    requires
        keys_unique(d),
    ensures
        keys_unique(set_draft(d, id, text)),
        has_draft(set_draft(d, id, text), id),
        draft_of(set_draft(d, id, text), id) == text,
        has_draft(d, id) && draft_of(d, id) == text ==> set_draft(d, id, text) == d,
{
    let e = set_draft(d, id, text);
    lemma_entries_map(d);
    match key_index(entry_keys(d), id) {
        Some(i) => {
            let j = choose|j: int| 0 <= j < entry_keys(d).len() && entry_keys(d)[j] == id;
            assert(i == j);
            assert(d[i].0 == id);
            assert(keys_unique(e)) by {
                assert forall|a: int, b: int| 0 <= a < b < e.len() implies e[a].0 != e[b].0 by {
                    if a != i && b != i {
                        assert(e[a] == d[a] && e[b] == d[b]);
                    } else if a == i {
                        assert(e[b] == d[b]);
                    } else {
                        assert(e[a] == d[a]);
                    }
                }
            }
            lemma_entries_map(e);
            assert(e[i] == (id, text));
            assert(entries_map(e)[e[i].0] == e[i].1);
            assert(entry_keys(e)[i] == id);
            if has_draft(d, id) && draft_of(d, id) == text {
                assert(entries_map(d)[d[i].0] == d[i].1);
                assert(e =~= d);
            }
        },
        None => {
            assert(keys_unique(e)) by {
                assert forall|a: int, b: int| 0 <= a < b < e.len() implies e[a].0 != e[b].0 by {
                    if b == e.len() - 1 {
                        assert(entry_keys(d)[a] == d[a].0);
                    } else {
                        assert(e[a] == d[a] && e[b] == d[b]);
                    }
                }
            }
            lemma_entries_map(e);
            let last = e.len() - 1;
            assert(e[last] == (id, text));
            assert(entries_map(e)[e[last].0] == e[last].1);
            assert(entry_keys(e)[last] == id);
        },
    }
}

/// The drafts' byte budget accounts for every draft: it is their total,
/// and it stays within the bound, whatever the projection went through.
pub proof fn law_draft_budget_is_the_drafts_total(p: &Projection)
    requires
        p.wf(),
    ensures
        p@.draft_bytes as nat == drafts_bytes(p@.drafts),
        p@.draft_bytes <= MAX_BLOCK_BYTES,
{
}

/// Offering a block's full record again once it was committed emits
/// nothing and changes nothing.
pub proof fn law_repeated_full_record_is_idempotent(p: &Projection, id: Seq<char>, text: Seq<char>)
    requires
        p.wf(),
        p@.draft_bytes - byte_len(draft_of(p@.drafts, id)) + byte_len(text) <= MAX_BLOCK_BYTES,
    ensures
        ({
            let q = after_complete(p@, id, text);
            &&& complete_outcome(q, id, text) == (q, Ok::<Option<EmitView>, ProjectionError>(None))
            &&& after_complete(q, id, text) == q
        }),
{
    p.drafts.lemma_view_entries();
    lemma_draft_within(p@.drafts, id);
    lemma_set_draft(p@.drafts, id, text);
    let q = after_complete(p@, id, text);
    lemma_set_draft(q.drafts, id, text);
    assert(q.completed.insert(id) =~= q.completed);
    assert(q.offsets.insert(id, byte_len(text) as usize) =~= q.offsets);
}

} // verus!
