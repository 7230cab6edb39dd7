//! Assembling streamed tool-call fragments into complete tool calls.
//!
//! A provider streams each tool call across several chunks: the first one
//! carries the id and name, later ones append to the arguments and may omit
//! the id, naming the call by its index instead.

use vstd::prelude::*;

use crate::llm::{calls_view, opt_view, clone_opt_string, ToolCallDelta, ToolCallRequest, ToolCallView};
use crate::text::{decimal, decimal_string};

verus! {

/// Index of the first call whose id is `id`, searching from `i`.
pub open spec fn find_id_from(calls: Seq<ToolCallView>, id: Seq<char>, i: int) -> Option<int>
    decreases calls.len() - i,
{
    if i < 0 || i >= calls.len() {
        None
    } else if calls[i].id == id {
        Some(i)
    } else {
        find_id_from(calls, id, i + 1)
    }
}

/// Index of the first call whose id is `id`.
pub open spec fn find_id(calls: Seq<ToolCallView>, id: Seq<char>) -> Option<int> {
    find_id_from(calls, id, 0)
}

/// A call after a fragment is applied to it: a new name replaces the old,
/// the arguments grow by the fragment, and a new thought signature replaces
/// the old one.
pub open spec fn merged_call(c: ToolCallView, d: ToolCallDelta) -> ToolCallView {
    ToolCallView {
        id: c.id,
        name: match d.name {
            Some(n) => n@,
            None => c.name,
        },
        arguments: c.arguments + d.arguments_delta@,
        thought_signature: if d.thought_signature is Some {
            opt_view(d.thought_signature)
        } else {
            c.thought_signature
        },
    }
}

/// A call started by a fragment, under the given id.
pub open spec fn started_call(id: Seq<char>, d: ToolCallDelta) -> ToolCallView {
    ToolCallView {
        id,
        name: match d.name {
            Some(n) => n@,
            None => Seq::empty(),
        },
        arguments: d.arguments_delta@,
        thought_signature: opt_view(d.thought_signature),
    }
}

/// The id given to a call that a fragment opens by index alone.
pub open spec fn index_call_id(index: u32) -> Seq<char> {
    "call_"@ + decimal(index as nat)
}

/// The calls after one fragment: a fragment with an id updates the first call
/// with that id or opens a new one; without an id it names a call by index
/// (opening one when the index is the next free slot), and otherwise
/// continues the most recent call.
pub open spec fn accumulated(calls: Seq<ToolCallView>, d: ToolCallDelta) -> Seq<ToolCallView> {
    if d.id@.len() > 0 {
        match find_id(calls, d.id@) {
            Some(i) => calls.update(i, merged_call(calls[i], d)),
            None => calls.push(started_call(d.id@, d)),
        }
    } else {
        match d.index {
            Some(ix) => if (ix as int) < calls.len() {
                calls.update(ix as int, merged_call(calls[ix as int], d))
            } else if ix as int == calls.len() {
                calls.push(started_call(index_call_id(ix), d))
            } else if calls.len() > 0 {
                calls.update(calls.len() - 1, merged_call(calls.last(), d))
            } else {
                calls
            },
            None => if calls.len() > 0 {
                calls.update(calls.len() - 1, merged_call(calls.last(), d))
            } else {
                calls
            },
        }
    }
}

/// The index of the call that `accumulated` writes, if any.
pub open spec fn touched_index(calls: Seq<ToolCallView>, d: ToolCallDelta) -> Option<int> {
    if d.id@.len() > 0 {
        match find_id(calls, d.id@) {
            Some(i) => Some(i),
            None => Some(calls.len() as int),
        }
    } else {
        match d.index {
            Some(ix) => if (ix as int) <= calls.len() {
                Some(ix as int)
            } else if calls.len() > 0 {
                Some(calls.len() - 1)
            } else {
                None
            },
            None => if calls.len() > 0 {
                Some(calls.len() - 1)
            } else {
                None
            },
        }
    }
}

/// The call a fragment refers to: by id when it has one (and `None` when no
/// call has that id), else by index when in range, else the most recent call.
pub open spec fn resolved_target(calls: Seq<ToolCallView>, d: ToolCallDelta) -> Option<int> {
    if d.id@.len() > 0 {
        find_id(calls, d.id@)
    } else if d.index is Some && (d.index.unwrap() as int) < calls.len() {
        Some(d.index.unwrap() as int)
    } else if calls.len() > 0 {
        Some(calls.len() - 1)
    } else {
        None
    }
}

/// Applies a fragment to a call.
fn merge_into(c: &ToolCallRequest, delta: &ToolCallDelta) -> (r: ToolCallRequest)
    ensures
        r@ == merged_call(c@, *delta),
{
    let name = match &delta.name {
        Some(n) => n.clone(),
        None => c.name.clone(),
    };
    let mut arguments = c.arguments.clone();
    arguments.append(delta.arguments_delta.as_str());
    let thought_signature = if delta.thought_signature.is_some() {
        clone_opt_string(&delta.thought_signature)
    } else {
        clone_opt_string(&c.thought_signature)
    };
    ToolCallRequest { id: c.id.clone(), name, arguments, thought_signature }
}

/// Opens a call from a fragment.
fn start_call(id: String, delta: &ToolCallDelta) -> (r: ToolCallRequest)
    ensures
        r@ == started_call(id@, *delta),
{
    let name = match &delta.name {
        Some(n) => n.clone(),
        None => String::new(),
    };
    ToolCallRequest {
        id,
        name,
        arguments: delta.arguments_delta.clone(),
        thought_signature: clone_opt_string(&delta.thought_signature),
    }
}

/// Replaces the call at `i` by the merge of the fragment into it.
fn merge_at(calls: &mut Vec<ToolCallRequest>, i: usize, delta: &ToolCallDelta)
    requires
        i < old(calls).len(),
    ensures
        calls_view(final(calls)@) == calls_view(old(calls)@).update(
            i as int,
            merged_call(calls_view(old(calls)@)[i as int], *delta),
        ),
{
    let merged = merge_into(&calls[i], delta);
    calls.set(i, merged);
    assert(calls_view(calls@) =~= calls_view(old(calls)@).update(
        i as int,
        merged_call(calls_view(old(calls)@)[i as int], *delta),
    ));
}

/// Appends a call.
fn push_call(calls: &mut Vec<ToolCallRequest>, call: ToolCallRequest)
    ensures
        calls_view(final(calls)@) == calls_view(old(calls)@).push(call@),
{
    calls.push(call);
    assert(calls_view(calls@) =~= calls_view(old(calls)@).push(call@));
}

/// Index of the first call with the given id.
fn position_of_id(calls: &Vec<ToolCallRequest>, id: &String) -> (r: Option<usize>)
    ensures
        match r {
            Some(i) => i < calls@.len() && find_id(calls_view(calls@), id@) == Some(i as int),
            None => find_id(calls_view(calls@), id@) is None,
        },
{
    let ghost views = calls_view(calls@);
    let mut i: usize = 0;
    while i < calls.len()
        invariant
            i <= calls.len(),
            views == calls_view(calls@),
            find_id(views, id@) == find_id_from(views, id@, i as int),
        decreases calls.len() - i,
    {
        if calls[i].id == *id {
            assert(views[i as int].id == id@);
            return Some(i);
        }
        i = i + 1;
    }
    None
}

/// Accumulates one streamed fragment into the calls assembled so far.
pub fn accumulate_tool_call(calls: &mut Vec<ToolCallRequest>, delta: &ToolCallDelta)
    ensures
        calls_view(final(calls)@) == accumulated(calls_view(old(calls)@), *delta),
{
    if !delta.id.as_str().is_empty() {
        match position_of_id(calls, &delta.id) {
            Some(i) => merge_at(calls, i, delta),
            None => {
                let call = start_call(delta.id.clone(), delta);
                push_call(calls, call);
            },
        }
    } else if let Some(index) = delta.index {
        let ix = index as usize;
        if ix < calls.len() {
            merge_at(calls, ix, delta);
        } else if ix == calls.len() {
            let mut id = String::new();
            id.append("call_");
            let digits = decimal_string(index as u64);
            id.append(digits.as_str());
            let call = start_call(id, delta);
            push_call(calls, call);
        } else if calls.len() > 0 {
            let last = calls.len() - 1;
            merge_at(calls, last, delta);
        }
    } else if calls.len() > 0 {
        let last = calls.len() - 1;
        merge_at(calls, last, delta);
    }
}

/// Which assembled call a fragment refers to, with the same id-then-index
/// fallback as [`accumulate_tool_call`].
pub fn resolve_delta_target<'a>(calls: &'a [ToolCallRequest], delta: &ToolCallDelta) -> (r: Option<
    (usize, &'a ToolCallRequest),
>)
    ensures
        match r {
            Some((i, c)) => resolved_target(calls_view(calls@), *delta) == Some(i as int) && i
                < calls@.len() && *c == calls@[i as int],
            None => resolved_target(calls_view(calls@), *delta) is None,
        },
{
    let ghost views = calls_view(calls@);
    if !delta.id.as_str().is_empty() {
        let mut i: usize = 0;
        while i < calls.len()
            invariant
                i <= calls.len(),
                views == calls_view(calls@),
                delta.id@.len() > 0,
                find_id(views, delta.id@) == find_id_from(views, delta.id@, i as int),
            decreases calls.len() - i,
        {
            if calls[i].id == delta.id {
                assert(views[i as int].id == delta.id@);
                return Some((i, &calls[i]));
            }
            i = i + 1;
        }
        return None;
    }
    if let Some(index) = delta.index {
        let idx = index as usize;
        if idx < calls.len() {
            return Some((idx, &calls[idx]));
        }
    }
    if calls.len() > 0 {
        let last = calls.len() - 1;
        Some((last, &calls[last]))
    } else {
        None
    }
}

proof fn lemma_find_id_from_update(
    calls: Seq<ToolCallView>,
    id: Seq<char>,
    i: int,
    x: ToolCallView,
    j: int,
)
    requires
        0 <= j <= i < calls.len(),
        find_id_from(calls, id, j) == Some(i),
        x.id == calls[i].id,
    ensures
        find_id_from(calls.update(i, x), id, j) == Some(i),
    decreases i - j,
{
    if j < i {
        lemma_find_id_from_update(calls, id, i, x, j + 1);
    } else {
        lemma_find_id_in_range(calls, id, i + 1);
    }
}

proof fn lemma_find_id_from_push(calls: Seq<ToolCallView>, id: Seq<char>, x: ToolCallView, j: int)
    requires
        0 <= j <= calls.len(),
        find_id_from(calls, id, j) is None,
        x.id == id,
    ensures
        find_id_from(calls.push(x), id, j) == Some(calls.len() as int),
    decreases calls.len() - j,
{
    if j < calls.len() {
        lemma_find_id_from_push(calls, id, x, j + 1);
    }
}

/// After a fragment is accumulated, resolving the same fragment finds the call
/// the accumulation wrote (or nothing, when it wrote none).
pub proof fn law_resolve_finds_the_accumulated_call(calls: Seq<ToolCallView>, d: ToolCallDelta)
    ensures
        resolved_target(accumulated(calls, d), d) == touched_index(calls, d),
{
    if d.id@.len() > 0 {
        match find_id(calls, d.id@) {
            Some(i) => {
                lemma_find_id_in_range(calls, d.id@, 0);
                lemma_find_id_from_update(calls, d.id@, i, merged_call(calls[i], d), 0);
            },
            None => {
                lemma_find_id_from_push(calls, d.id@, started_call(d.id@, d), 0);
            },
        }
    }
}

/// A fragment changes at most the one call it refers to, and adds at most
/// one call. The call it updates keeps its id, has the fragment's text
/// appended to its arguments, takes the fragment's name if it carries one,
/// and takes the fragment's thought signature only if it carries one: a
/// fragment without a signature leaves every call's signature as it was.
pub proof fn law_fragment_updates_only_its_call(calls: Seq<ToolCallView>, d: ToolCallDelta)
    ensures
        accumulated(calls, d).len() == calls.len() || accumulated(calls, d).len() == calls.len()
            + 1,
        forall|j: int|
            0 <= j < calls.len() && touched_index(calls, d) != Some(j) ==> #[trigger] accumulated(
                calls,
                d,
            )[j] == calls[j],
        forall|j: int|
            0 <= j < calls.len() && touched_index(calls, d) == Some(j) ==> {
                let c = #[trigger] accumulated(calls, d)[j];
                &&& c.id == calls[j].id
                &&& c.arguments == calls[j].arguments + d.arguments_delta@
                &&& c.name == (match d.name {
                    Some(n) => n@,
                    None => calls[j].name,
                })
                &&& c.thought_signature == (match d.thought_signature {
                    Some(t) => Some(t@),
                    None => calls[j].thought_signature,
                })
            },
        d.thought_signature is None ==> forall|j: int|
            0 <= j < calls.len() ==> (#[trigger] accumulated(calls, d)[j]).thought_signature
                == calls[j].thought_signature,
{
    if d.id@.len() > 0 {
        lemma_find_id_in_range(calls, d.id@, 0);
    }
}

proof fn lemma_find_id_in_range(calls: Seq<ToolCallView>, id: Seq<char>, j: int)
    requires
        0 <= j,
    ensures
        find_id_from(calls, id, j) matches Some(i) ==> j <= i < calls.len() && calls[i].id == id,
    decreases calls.len() - j,
{
    if j < calls.len() && calls[j].id != id {
        lemma_find_id_in_range(calls, id, j + 1);
    }
}

} // verus!
