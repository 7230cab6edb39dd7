//! Coalescing of streamed tool-input previews: a preview is passed on when
//! it grew by a meaningful amount or when the stream was silent too long.
//! Times are milliseconds on one monotonic clock.

use vstd::prelude::*;

use crate::events::ToolRunStatus;
use crate::string_map::StringMap;

verus! {

pub const MIN_PREVIEW_GROWTH_BYTES: usize = 2048;

pub const MAX_PREVIEW_SILENCE_MS: u64 = 2000;

/// What the journal reads of a tool-run update.
#[derive(Debug, Clone)]
pub struct ToolRunSummary {
    pub call_id: String,
    pub status: ToolRunStatus,
    /// `inputProgress.receivedBytes` of the run's artifacts, when it is an
    /// unsigned integer.
    pub reported_bytes: Option<u64>,
    /// Byte length of the run's arguments, when it has them.
    pub arguments_len: Option<usize>,
}

/// An event offered to the journal, with its tool-run update if it is one.
#[derive(Debug, Clone)]
pub struct PreviewCandidate<E> {
    pub event: E,
    pub tool_run: Option<ToolRunSummary>,
}

/// The call a preview belongs to: only updates of preparing runs are
/// previews.
pub open spec fn preview_id<E>(c: PreviewCandidate<E>) -> Option<Seq<char>> {
    match c.tool_run {
        Some(r) => if r.status == ToolRunStatus::Preparing {
            Some(r.call_id@)
        } else {
            None
        },
        None => None,
    }
}

/// Bytes of input a preview has received: the reported count when it fits,
/// else the arguments' length, else zero.
pub open spec fn received_bytes<E>(c: PreviewCandidate<E>) -> usize {
    match c.tool_run {
        Some(r) => match r.reported_bytes {
            Some(b) if b <= usize::MAX => b as usize,
            _ => match r.arguments_len {
                Some(n) => n,
                None => 0,
            },
        },
        None => 0,
    }
}

pub fn preview_call_id<E>(c: &PreviewCandidate<E>) -> (r: Option<&str>)
    ensures
        match r {
            Some(id) => preview_id(*c) == Some(id@),
            None => preview_id(*c) is None,
        },
{
    match &c.tool_run {
        Some(run) => match run.status {
            ToolRunStatus::Preparing => Some(run.call_id.as_str()),
            _ => None,
        },
        None => None,
    }
}

pub fn preview_received_bytes<E>(c: &PreviewCandidate<E>) -> (n: usize)
    ensures
        n == received_bytes(*c),
{
    match &c.tool_run {
        Some(run) => {
            match run.reported_bytes {
                Some(b) => {
                    if b <= usize::MAX as u64 {
                        return b as usize;
                    }
                },
                None => {},
            }
            match run.arguments_len {
                Some(n) => n,
                None => 0,
            }
        },
        None => 0,
    }
}

/// When a call's previews were first seen and last passed on.
#[derive(Debug, Clone, Copy, PartialEq, Eq, Structural)]
pub struct PreviewCursor {
    pub first_observed_at_ms: u64,
    pub last_emitted_at_ms: Option<u64>,
    pub last_emitted_bytes: usize,
}

pub open spec fn fresh_cursor(now_ms: u64) -> PreviewCursor {
    PreviewCursor { first_observed_at_ms: now_ms, last_emitted_at_ms: None, last_emitted_bytes: 0 }
}

/// Coalesces cumulative tool-input previews of running calls.
#[derive(Debug)]
pub struct ToolPreviewJournal<E> {
    pending: Vec<PreviewCandidate<E>>,
    cursors: StringMap<PreviewCursor>,
}

/// Index of the first pending preview of this call.
pub open spec fn first_of_call<E>(pending: Seq<PreviewCandidate<E>>, id: Seq<char>) -> Option<int>
    decreases pending.len(),
{
    if pending.len() == 0 {
        None
    } else if preview_id(pending[0]) == Some(id) {
        Some(0)
    } else {
        match first_of_call(pending.drop_first(), id) {
            Some(k) => Some(k + 1),
            None => None,
        }
    }
}

pub open spec fn cursor_or_fresh(cursors: Map<Seq<char>, PreviewCursor>, id: Seq<char>, now_ms: u64) -> PreviewCursor {
    if cursors.contains_key(id) {
        cursors[id]
    } else {
        fresh_cursor(now_ms)
    }
}

pub open spec fn sat_sub_u64(a: u64, b: u64) -> u64 {
    if a >= b {
        (a - b) as u64
    } else {
        0
    }
}

pub open spec fn sat_sub_usize(a: usize, b: usize) -> usize {
    if a >= b {
        (a - b) as usize
    } else {
        0
    }
}

/// A preview is due when it grew by at least 2 KiB since the last one
/// passed on, or when nothing was passed on for two seconds.
pub open spec fn preview_due(cursor: PreviewCursor, received: usize, now_ms: u64) -> bool {
    let last_activity = match cursor.last_emitted_at_ms {
        Some(t) => t,
        None => cursor.first_observed_at_ms,
    };
    sat_sub_usize(received, cursor.last_emitted_bytes) >= MIN_PREVIEW_GROWTH_BYTES || sat_sub_u64(
        now_ms,
        last_activity,
    ) >= MAX_PREVIEW_SILENCE_MS
}

/// The journal's state after draining the pending previews from `pending`
/// on: cursors, previews passed on, previews kept waiting.
pub open spec fn drain_from<E>(
    cursors: Map<Seq<char>, PreviewCursor>,
    ready: Seq<PreviewCandidate<E>>,
    waiting: Seq<PreviewCandidate<E>>,
    pending: Seq<PreviewCandidate<E>>,
    now_ms: u64,
) -> (Map<Seq<char>, PreviewCursor>, Seq<PreviewCandidate<E>>, Seq<PreviewCandidate<E>>)
    decreases pending.len(),
{
    if pending.len() == 0 {
        (cursors, ready, waiting)
    } else {
        let c = pending[0];
        let rest = pending.drop_first();
        match preview_id(c) {
            None => drain_from(cursors, ready, waiting, rest, now_ms),
            Some(id) => {
                let cursor = cursor_or_fresh(cursors, id, now_ms);
                if preview_due(cursor, received_bytes(c), now_ms) {
                    drain_from(
                        cursors.insert(
                            id,
                            PreviewCursor {
                                last_emitted_at_ms: Some(now_ms),
                                last_emitted_bytes: received_bytes(c),
                                ..cursor
                            },
                        ),
                        ready.push(c),
                        waiting,
                        rest,
                        now_ms,
                    )
                } else {
                    drain_from(cursors.insert(id, cursor), ready, waiting.push(c), rest, now_ms)
                }
            },
        }
    }
}


/// Every pending entry is a preview, and no call has two.
pub open spec fn one_pending_per_call<E>(pending: Seq<PreviewCandidate<E>>) -> bool {
    &&& forall|i: int| 0 <= i < pending.len() ==> (#[trigger] preview_id(pending[i])) is Some
    &&& forall|i: int, j: int|
        0 <= i < j < pending.len() ==> preview_id(#[trigger] pending[i]) != preview_id(
            #[trigger] pending[j],
        )
}

proof fn lemma_one_pending_remove<E>(s: Seq<PreviewCandidate<E>>, k: int)
    requires
        one_pending_per_call(s),
        0 <= k < s.len(),
    ensures
        one_pending_per_call(s.remove(k)),
{
    let r = s.remove(k);
    assert forall|i: int| 0 <= i < r.len() implies (#[trigger] preview_id(r[i])) is Some by {
        if i < k {
            assert(r[i] == s[i]);
        } else {
            assert(r[i] == s[i + 1]);
        }
    }
    assert forall|i: int, j: int| 0 <= i < j < r.len() implies preview_id(#[trigger] r[i]) != preview_id(#[trigger] r[j]) by {
        let a = if i < k { i } else { i + 1 };
        let b = if j < k { j } else { j + 1 };
        assert(r[i] == s[a]);
        assert(r[j] == s[b]);
    }
}

/// The pending previews without this call's.
pub open spec fn without_call<E>(pending: Seq<PreviewCandidate<E>>, id: Seq<char>) -> Seq<PreviewCandidate<E>>
    decreases pending.len(),
{
    if pending.len() == 0 {
        pending
    } else {
        let rest = without_call(pending.drop_last(), id);
        if preview_id(pending.last()) == Some(id) {
            rest
        } else {
            rest.push(pending.last())
        }
    }
}

pub proof fn lemma_first_of_call<E>(pending: Seq<PreviewCandidate<E>>, id: Seq<char>)
    ensures
        first_of_call(pending, id) matches Some(k) ==> 0 <= k < pending.len() && preview_id(pending[k]) == Some(id),
        first_of_call(pending, id) matches Some(k) ==> forall|j: int| 0 <= j < k ==> preview_id(#[trigger] pending[j]) != Some(id),
        first_of_call(pending, id) is None ==> forall|j: int| 0 <= j < pending.len() ==> preview_id(#[trigger] pending[j]) != Some(id),
    decreases pending.len(),
{
    if pending.len() > 0 && preview_id(pending[0]) != Some(id) {
        let rest = pending.drop_first();
        lemma_first_of_call(rest, id);
        let bound = match first_of_call(pending, id) {
            Some(k) => k,
            None => pending.len() as int,
        };
        assert forall|j: int| 0 <= j < bound implies preview_id(#[trigger] pending[j]) != Some(id) by {
            if j > 0 {
                assert(pending[j] == rest[j - 1]);
            }
        }
    }
}

impl<E> ToolPreviewJournal<E> {
    pub closed spec fn pending_view(&self) -> Seq<PreviewCandidate<E>> {
        self.pending@
    }

    pub closed spec fn cursors_view(&self) -> Map<Seq<char>, PreviewCursor> {
        self.cursors.map()
    }

    pub closed spec fn wf(&self) -> bool {
        &&& self.cursors.wf()
        &&& one_pending_per_call(self.pending@)
    }

    pub fn new() -> (j: ToolPreviewJournal<E>)
        ensures
            j.wf(),
            j.pending_view() == Seq::<PreviewCandidate<E>>::empty(),
            j.cursors_view() == Map::<Seq<char>, PreviewCursor>::empty(),
    {
        let j = ToolPreviewJournal { pending: Vec::new(), cursors: StringMap::new() };
        assert(j.cursors.map() =~= Map::<Seq<char>, PreviewCursor>::empty());
        j
    }

}

impl<E> ToolPreviewJournal<E> {
    /// Index of the first pending preview of this call.
    fn find_pending(&self, call_id: &String) -> (r: Option<usize>)
        ensures
            match r {
                Some(k) => k < self.pending_view().len() && first_of_call(self.pending_view(), call_id@) == Some(k as int),
                None => first_of_call(self.pending_view(), call_id@) is None,
            },
    {
        let ghost all = self.pending@;
        let mut i: usize = 0;
        assert(all.skip(0) =~= all);
        while i < self.pending.len()
            invariant
                i <= self.pending.len(),
                all == self.pending@,
                forall|j: int| 0 <= j < i ==> preview_id(#[trigger] all[j]) != Some(call_id@),
            decreases self.pending.len() - i,
        {
            let hit = match &self.pending[i].tool_run {
                Some(run) => match run.status {
                    ToolRunStatus::Preparing => run.call_id == *call_id,
                    _ => false,
                },
                None => false,
            };
            if hit {
                proof {
                    lemma_first_of_call(all, call_id@);
                    assert(preview_id(all[i as int]) == Some(call_id@));
                    match first_of_call(all, call_id@) {
                        Some(k) => {
                            if k > i {
                                assert(preview_id(all[i as int]) != Some(call_id@));
                            }
                        },
                        None => {
                            assert(preview_id(all[i as int]) != Some(call_id@));
                        },
                    }
                }
                return Some(i);
            }
            i = i + 1;
        }
        proof {
            lemma_first_of_call(all, call_id@);
            if first_of_call(all, call_id@) is Some {
                let k = first_of_call(all, call_id@)->0;
                assert(preview_id(all[k]) == Some(call_id@));
            }
        }
        None
    }

    /// Takes a preview of a preparing tool call; other events are ignored.
    /// A newer preview of the same call replaces the pending one.
    pub fn queue(&mut self, event: PreviewCandidate<E>, now_ms: u64)
        requires
            old(self).wf(),
        ensures
            final(self).wf(),
            match preview_id(event) {
                None => final(self).pending_view() == old(self).pending_view()
                    && final(self).cursors_view() == old(self).cursors_view(),
                Some(id) => {
                    &&& final(self).cursors_view() == old(self).cursors_view().insert(
                        id,
                        cursor_or_fresh(old(self).cursors_view(), id, now_ms),
                    )
                    &&& final(self).pending_view() == match first_of_call(
                        old(self).pending_view(),
                        id,
                    ) {
                        Some(k) => old(self).pending_view().update(k, event),
                        None => old(self).pending_view().push(event),
                    }
                },
            },
    {
        let id = match &event.tool_run {
            Some(run) => match run.status {
                ToolRunStatus::Preparing => run.call_id.clone(),
                _ => {
                    return;
                },
            },
            None => {
                return;
            },
        };
        if self.cursors.contains_key(id.as_str()) {
            assert(self.cursors_view().insert(id@, self.cursors_view()[id@]) =~= self.cursors_view());
        } else {
            self.cursors.insert(
                id.as_str(),
                PreviewCursor { first_observed_at_ms: now_ms, last_emitted_at_ms: None, last_emitted_bytes: 0 },
            );
        }
        let ghost before = self.pending@;
        proof {
            lemma_first_of_call(before, id@);
        }
        match self.find_pending(&id) {
            Some(k) => {
                self.pending.set(k, event);
                proof {
                    let after = self.pending@;
                    assert forall|i: int, j: int| 0 <= i < j < after.len() implies preview_id(
                        #[trigger] after[i],
                    ) != preview_id(#[trigger] after[j]) by {
                        if i != k as int {
                            assert(after[i] == before[i]);
                        }
                        if j != k as int {
                            assert(after[j] == before[j]);
                        }
                    }
                    assert forall|i: int| 0 <= i < after.len() implies (#[trigger] preview_id(
                        after[i],
                    )) is Some by {
                        if i != k as int {
                            assert(after[i] == before[i]);
                        }
                    }
                }
            },
            None => {
                self.pending.push(event);
                proof {
                    let after = self.pending@;
                    assert forall|i: int, j: int| 0 <= i < j < after.len() implies preview_id(
                        #[trigger] after[i],
                    ) != preview_id(#[trigger] after[j]) by {
                        assert(after[i] == before[i]);
                        if j < before.len() {
                            assert(after[j] == before[j]);
                        }
                    }
                    assert forall|i: int| 0 <= i < after.len() implies (#[trigger] preview_id(
                        after[i],
                    )) is Some by {
                        if i < before.len() {
                            assert(after[i] == before[i]);
                        }
                    }
                }
            },
        }
    }

    /// Passes on the previews that are due and keeps the others waiting.
    pub fn drain_due(&mut self, now_ms: u64) -> (ready: Vec<PreviewCandidate<E>>)
        requires
            old(self).wf(),
        ensures
            final(self).wf(),
            (final(self).cursors_view(), ready@, final(self).pending_view()) == drain_from(
                old(self).cursors_view(),
                Seq::empty(),
                Seq::empty(),
                old(self).pending_view(),
                now_ms,
            ),
    {
        let ghost target = drain_from(
            self.cursors_view(),
            Seq::empty(),
            Seq::empty(),
            self.pending_view(),
            now_ms,
        );
        let mut items: Vec<PreviewCandidate<E>> = Vec::new();
        std::mem::swap(&mut items, &mut self.pending);
        let mut ready: Vec<PreviewCandidate<E>> = Vec::new();
        let mut waiting: Vec<PreviewCandidate<E>> = Vec::new();
        assert(waiting@ + items@ =~= items@);
        while items.len() > 0
            invariant
                self.cursors.wf(),
                self.pending@.len() == 0,
                one_pending_per_call(waiting@ + items@),
                drain_from(self.cursors_view(), ready@, waiting@, items@, now_ms) == target,
            decreases items.len(),
        {
            let ghost before = items@;
            let ghost waiting_before = waiting@;
            let c = items.remove(0);
            assert(items@ =~= before.drop_first());
            assert(c == before[0]);
            proof {
                lemma_one_pending_remove(waiting_before + before, waiting_before.len() as int);
                assert((waiting_before + before).remove(waiting_before.len() as int) =~= waiting_before
                    + items@);
                assert(waiting_before.push(c) + items@ =~= waiting_before + before);
            }
            let id = match &c.tool_run {
                Some(run) => match run.status {
                    ToolRunStatus::Preparing => Some(run.call_id.clone()),
                    _ => None,
                },
                None => None,
            };
            match id {
                None => {},
                Some(id) => {
                    let cursor = match self.cursors.get(id.as_str()) {
                        Some(c) => *c,
                        None => PreviewCursor { first_observed_at_ms: now_ms, last_emitted_at_ms: None, last_emitted_bytes: 0 },
                    };
                    let received = preview_received_bytes(&c);
                    let last_activity = match cursor.last_emitted_at_ms {
                        Some(t) => t,
                        None => cursor.first_observed_at_ms,
                    };
                    let grown = if received >= cursor.last_emitted_bytes {
                        received - cursor.last_emitted_bytes
                    } else {
                        0
                    };
                    let silent = if now_ms >= last_activity {
                        now_ms - last_activity
                    } else {
                        0
                    };
                    if grown >= MIN_PREVIEW_GROWTH_BYTES || silent >= MAX_PREVIEW_SILENCE_MS {
                        self.cursors.insert(
                            id.as_str(),
                            PreviewCursor { last_emitted_at_ms: Some(now_ms), last_emitted_bytes: received, ..cursor },
                        );
                        ready.push(c);
                    } else {
                        self.cursors.insert(id.as_str(), cursor);
                        waiting.push(c);
                    }
                },
            }
        }
        assert(waiting@ + items@ =~= waiting@);
        self.pending = waiting;
        ready
    }

    /// Forgets a call whose preview phase ended.
    pub fn retire(&mut self, call_id: &str)
        requires
            old(self).wf(),
        ensures
            final(self).wf(),
            final(self).pending_view() == without_call(old(self).pending_view(), call_id@),
            final(self).cursors_view() == old(self).cursors_view().remove(call_id@),
    {
        let ghost all = self.pending@;
        let total = self.pending.len();
        let mut items: Vec<PreviewCandidate<E>> = Vec::new();
        std::mem::swap(&mut items, &mut self.pending);
        let mut kept: Vec<PreviewCandidate<E>> = Vec::new();
        let mut done: usize = 0;
        assert(all.skip(0) =~= all);
        assert(kept@ + items@ =~= items@);
        while items.len() > 0
            invariant
                done + items@.len() == all.len(),
                all.len() == total,
                items@ == all.skip(done as int),
                kept@ == without_call(all.take(done as int), call_id@),
                self.wf(),
                self.pending@.len() == 0,
                one_pending_per_call(kept@ + items@),
            decreases items.len(),
        {
            let ghost before = items@;
            let ghost kept_before = kept@;
            let c = items.remove(0);
            proof {
                assert(items@ =~= before.drop_first());
                lemma_one_pending_remove(kept_before + before, kept_before.len() as int);
                assert((kept_before + before).remove(kept_before.len() as int) =~= kept_before
                    + items@);
                assert(kept_before.push(c) + items@ =~= kept_before + before);
                assert(items@ =~= all.skip(done + 1));
                assert(all.take(done + 1).drop_last() =~= all.take(done as int));
                assert(all.take(done + 1).last() == c);
            }
            let same = match &c.tool_run {
                Some(run) => match run.status {
                    ToolRunStatus::Preparing => crate::text::str_eq(run.call_id.as_str(), call_id),
                    _ => false,
                },
                None => false,
            };
            if !same {
                kept.push(c);
            }
            done = done + 1;
        }
        assert(all.take(done as int) =~= all);
        assert(kept@ + items@ =~= kept@);
        self.pending = kept;
        self.cursors.remove(call_id);
    }

    /// Forgets everything.
    pub fn reset(&mut self)
        ensures
            final(self).wf(),
            final(self).pending_view() == Seq::<PreviewCandidate<E>>::empty(),
            final(self).cursors_view() == Map::<Seq<char>, PreviewCursor>::empty(),
    {
        self.pending = Vec::new();
        self.cursors.clear();
        assert(self.cursors.map() =~= Map::<Seq<char>, PreviewCursor>::empty());
    }

    /// Passes on every pending preview and forgets all calls.
    pub fn drain_all(&mut self) -> (all: Vec<PreviewCandidate<E>>)
        ensures
            final(self).wf(),
            all@ == old(self).pending_view(),
            final(self).pending_view() == Seq::<PreviewCandidate<E>>::empty(),
            final(self).cursors_view() == Map::<Seq<char>, PreviewCursor>::empty(),
    {
        self.cursors.clear();
        assert(self.cursors.map() =~= Map::<Seq<char>, PreviewCursor>::empty());
        let mut all: Vec<PreviewCandidate<E>> = Vec::new();
        std::mem::swap(&mut all, &mut self.pending);
        all
    }
}

/// A journal never holds two previews of one call, nor anything that is
/// not a preview: every operation keeps it so.
pub proof fn law_one_pending_preview_per_call<E>(journal: &ToolPreviewJournal<E>)
    requires
        journal.wf(),
    ensures
        one_pending_per_call(journal.pending_view()),
{
}

impl<E> Default for ToolPreviewJournal<E> {
    fn default() -> (j: ToolPreviewJournal<E>)
        ensures
            j.wf(),
            j.pending_view() == Seq::<PreviewCandidate<E>>::empty(),
            j.cursors_view() == Map::<Seq<char>, PreviewCursor>::empty(),
    {
        ToolPreviewJournal::new()
    }
}


} // verus!
