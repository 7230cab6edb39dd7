//! Long-running task resilience: checkpoint cadence and the rolling control
//! note that keeps a long task anchored to its plan.

use vstd::prelude::*;

use crate::llm::{messages_view, text_message, Message, MessageView, Role};
use crate::prompt_ir::controller_state_message;
use crate::text::{contains_seq, occurs_at, chars_of, decimal, decimal_string, is_blank, join_chars, join_with, starts_with, starts_with_chars, string_of, trim, trim_chars};

verus! {

pub const CHECKPOINT_EVERY_TOOL_ROUNDS: u32 = 3;

pub const LONG_TASK_RECITATION_PREFIX: &'static str = "## Long Task Control State";

/// One step of the active task plan, with its status name.
#[derive(Debug, Clone, PartialEq, Eq)]
pub struct TaskPlanStep {
    pub title: String,
    pub status: String,
}

/// What the control note reports of the active task plan.
#[derive(Debug, Clone, PartialEq, Eq)]
pub struct TaskPlanSummary {
    pub objective: String,
    pub steps: Vec<TaskPlanStep>,
    /// The evidence-sufficiency verdict of the plan's ledger.
    pub sufficiency: String,
    pub open_questions: Vec<String>,
    pub safeguards: Vec<String>,
}

/// Checkpoint bookkeeping of a long task.
#[derive(Debug, Clone, Copy, PartialEq, Eq)]
pub struct LongTaskState {
    pub last_checkpoint_iteration: Option<u32>,
}

pub open spec fn completed_status() -> Seq<char> {
    "Completed"@
}

/// Number of completed steps.
pub open spec fn completed_count(steps: Seq<TaskPlanStep>) -> nat
    decreases steps.len(),
{
    if steps.len() == 0 {
        0
    } else {
        completed_count(steps.drop_last()) + if steps.last().status@ == completed_status() {
            1nat
        } else {
            0nat
        }
    }
}

/// Index of the first step not completed, searching from `i`.
pub open spec fn first_open_step_from(steps: Seq<TaskPlanStep>, i: int) -> Option<int>
    decreases steps.len() - i,
{
    if i < 0 || i >= steps.len() {
        None
    } else if steps[i].status@ != completed_status() {
        Some(i)
    } else {
        first_open_step_from(steps, i + 1)
    }
}

/// The current step as the note names it.
pub open spec fn current_step_text(steps: Seq<TaskPlanStep>) -> Seq<char> {
    match first_open_step_from(steps, 0) {
        Some(i) => steps[i].title@ + " ("@ + steps[i].status@ + ")"@,
        None => "all planned steps completed"@,
    }
}

pub open spec fn string_views(v: Seq<String>) -> Seq<Seq<char>> {
    v.map_values(|s: String| s@)
}

/// The first `n` trimmed non-blank items.
pub open spec fn first_nonblank_trimmed(items: Seq<Seq<char>>, n: nat) -> Seq<Seq<char>>
    decreases items.len(),
{
    if items.len() == 0 || n == 0 {
        Seq::empty()
    } else if is_blank(items[0]) {
        first_nonblank_trimmed(items.drop_first(), n)
    } else {
        seq![trim(items[0])] + first_nonblank_trimmed(items.drop_first(), (n - 1) as nat)
    }
}

/// Up to three trimmed non-blank items joined by `"; "`, or the fallback.
pub open spec fn compact_items_spec(items: Seq<Seq<char>>, fallback: Seq<char>) -> Seq<char> {
    let selected = first_nonblank_trimmed(items, 3);
    if selected.len() == 0 {
        fallback
    } else {
        join_with(selected, "; "@)
    }
}

proof fn lemma_first_nonblank_len(items: Seq<Seq<char>>, n: nat)
    ensures
        first_nonblank_trimmed(items, n).len() <= n,
    decreases items.len(),
{
    if items.len() > 0 && n > 0 {
        if is_blank(items[0]) {
            lemma_first_nonblank_len(items.drop_first(), n);
        } else {
            lemma_first_nonblank_len(items.drop_first(), (n - 1) as nat);
        }
    }
}

/// Up to three trimmed non-blank items joined by `"; "`, or the fallback.
pub fn compact_items(items: &[String], fallback: &str) -> (r: String)
    ensures
        r@ == compact_items_spec(string_views(items@), fallback@),
{
    let ghost views = string_views(items@);
    let mut selected: Vec<Vec<char>> = Vec::new();
    let mut i: usize = 0;
    assert(views.skip(0) =~= views);
    assert(crate::text::vec_views(selected@) =~= Seq::<Seq<char>>::empty());
    while i < items.len() && selected.len() < 3
        invariant
            i <= items.len(),
            views == string_views(items@),
            selected.len() <= 3,
            crate::text::vec_views(selected@) + first_nonblank_trimmed(
                views.skip(i as int),
                (3 - selected.len()) as nat,
            ) == first_nonblank_trimmed(views, 3),
        decreases items.len() - i,
    {
        let chars = chars_of(items[i].as_str());
        proof {
            assert(views.skip(i as int).drop_first() =~= views.skip(i + 1));
            assert(views.skip(i as int)[0] == items@[i as int]@);
        }
        if !crate::text::chars_are_blank(chars.as_slice()) {
            let t = trim_chars(chars.as_slice());
            let ghost before = crate::text::vec_views(selected@);
            selected.push(t);
            assert(crate::text::vec_views(selected@) =~= before.push(t@));
            assert(crate::text::vec_views(selected@) + first_nonblank_trimmed(
                views.skip(i + 1),
                (3 - selected.len()) as nat,
            ) =~= before + first_nonblank_trimmed(
                views.skip(i as int),
                (3 - before.len()) as nat,
            ));
        }
        i = i + 1;
    }
    proof {
        if selected.len() == 3 {
            assert(first_nonblank_trimmed(views.skip(i as int), 0) =~= Seq::<Seq<char>>::empty());
        } else {
            assert(views.skip(i as int) =~= Seq::<Seq<char>>::empty());
        }
        assert(crate::text::vec_views(selected@) =~= first_nonblank_trimmed(views, 3));
    }
    if selected.len() == 0 {
        return String::from_str(fallback);
    }
    let sep = chars_of("; ");
    let joined = join_chars(&selected, sep.as_slice());
    string_of(joined.as_slice())
}

/// The rolling control note for an iteration (0-based) of a long task.
pub open spec fn recitation_text(plan: TaskPlanSummary, iteration: u32, max_iterations: u32) -> Seq<char> {
    let shown_iteration: nat = if iteration == u32::MAX {
        u32::MAX as nat
    } else {
        (iteration + 1) as nat
    };
    LONG_TASK_RECITATION_PREFIX@
        + "\nThis rolling control note keeps the long task anchored. Treat the original user request and active plan as still in force.\n\nObjective: "@
        + plan.objective@ + "\nIteration: "@ + decimal(shown_iteration) + "/"@ + decimal(
        max_iterations as nat,
    ) + "\nPlan progress: "@ + decimal(completed_count(plan.steps@)) + "/"@ + decimal(
        plan.steps@.len(),
    ) + " steps completed; current: "@ + current_step_text(plan.steps@)
        + "\nEvidence sufficiency: "@ + plan.sufficiency@ + "; open questions: "@
        + compact_items_spec(string_views(plan.open_questions@), "none"@) + "\nSafeguards: "@
        + compact_items_spec(string_views(plan.safeguards@), "none"@)
        + "\n\nRules:\n- Continue from completed work; do not repeat successful tool calls unless evidence is stale, missing, or contradicted.\n- Spend the next tool round on the smallest unfinished step that can change the answer.\n- Before the final answer, verify required evidence and name any remaining gaps."@
}

/// A message is an earlier control note.
pub open spec fn is_recitation(m: MessageView) -> bool {
    m.role == Role::System && starts_with(m.content, LONG_TASK_RECITATION_PREFIX@)
}

/// The messages without earlier control notes, in order.
pub open spec fn without_recitations(ms: Seq<MessageView>) -> Seq<MessageView>
    decreases ms.len(),
{
    if ms.len() == 0 {
        Seq::empty()
    } else if is_recitation(ms.last()) {
        without_recitations(ms.drop_last())
    } else {
        without_recitations(ms.drop_last()).push(ms.last())
    }
}

/// Number of control notes among the messages.
pub open spec fn recitation_count(ms: Seq<MessageView>) -> nat
    decreases ms.len(),
{
    if ms.len() == 0 {
        0
    } else {
        recitation_count(ms.drop_last()) + if is_recitation(ms.last()) {
            1nat
        } else {
            0nat
        }
    }
}

/// The messages after a refresh: from the first iteration on, earlier notes
/// are dropped (unless the prefix is preserved) and the new note appended.
pub open spec fn refreshed_messages(
    ms: Seq<MessageView>,
    note: Seq<char>,
    iteration: u32,
    preserve_prefix: bool,
) -> Seq<MessageView> {
    if iteration == 0 {
        ms
    } else {
        let kept = if preserve_prefix {
            ms
        } else {
            without_recitations(ms)
        };
        kept.push(text_message(Role::System, note))
    }
}

impl LongTaskState {
    pub fn new() -> (s: LongTaskState)
        ensures
            s.last_checkpoint_iteration is None,
    {
        LongTaskState { last_checkpoint_iteration: None }
    }

    /// A checkpoint is due after every third completed tool round, once.
    pub fn should_checkpoint_after_tool_round(&self, iteration: u32) -> (b: bool)
        ensures
            b == ((if iteration == u32::MAX {
                iteration as int
            } else {
                iteration + 1
            }) % (CHECKPOINT_EVERY_TOOL_ROUNDS as int) == 0 && self.last_checkpoint_iteration
                != Some(iteration)),
    {
        let completed_rounds = iteration.saturating_add(1);
        completed_rounds % CHECKPOINT_EVERY_TOOL_ROUNDS == 0 && self.last_checkpoint_iteration
            != Some(iteration)
    }

    pub fn record_checkpoint(&mut self, iteration: u32)
        ensures
            final(self).last_checkpoint_iteration == Some(iteration),
    {
        self.last_checkpoint_iteration = Some(iteration);
    }

    /// The control note for this iteration.
    pub fn plan_recitation(&self, plan: &TaskPlanSummary, iteration: u32, max_iterations: u32) -> (r:
        String)
        ensures
            r@ == recitation_text(*plan, iteration, max_iterations),
    {
        let mut completed: usize = 0;
        let mut current: Option<usize> = None;
        let mut i: usize = 0;
        while i < plan.steps.len()
            invariant
                i <= plan.steps.len(),
                completed as nat == completed_count(plan.steps@.take(i as int)),
                completed <= i,
                match current {
                    Some(k) => k < i && first_open_step_from(plan.steps@, 0) == Some(k as int),
                    None => first_open_step_from(plan.steps@, 0) == first_open_step_from(
                        plan.steps@,
                        i as int,
                    ),
                },
            decreases plan.steps.len() - i,
        {
            proof {
                assert(plan.steps@.take(i + 1).drop_last() =~= plan.steps@.take(i as int));
            }
            let is_done = plan.steps[i].status == String::from_str("Completed");
            if is_done {
                completed = completed + 1;
            } else if current.is_none() {
                current = Some(i);
            }
            i = i + 1;
        }
        assert(plan.steps@.take(plan.steps.len() as int) =~= plan.steps@);
        let mut r = String::new();
        r.append(LONG_TASK_RECITATION_PREFIX);
        r.append(
            "\nThis rolling control note keeps the long task anchored. Treat the original user request and active plan as still in force.\n\nObjective: ",
        );
        r.append(plan.objective.as_str());
        r.append("\nIteration: ");
        let shown = decimal_string(iteration.saturating_add(1) as u64);
        r.append(shown.as_str());
        r.append("/");
        let max = decimal_string(max_iterations as u64);
        r.append(max.as_str());
        r.append("\nPlan progress: ");
        let done = decimal_string(completed as u64);
        r.append(done.as_str());
        r.append("/");
        let total = decimal_string(plan.steps.len() as u64);
        r.append(total.as_str());
        r.append(" steps completed; current: ");
        match current {
            Some(k) => {
                r.append(plan.steps[k].title.as_str());
                r.append(" (");
                r.append(plan.steps[k].status.as_str());
                r.append(")");
            },
            None => r.append("all planned steps completed"),
        }
        r.append("\nEvidence sufficiency: ");
        r.append(plan.sufficiency.as_str());
        r.append("; open questions: ");
        let questions = compact_items(plan.open_questions.as_slice(), "none");
        r.append(questions.as_str());
        r.append("\nSafeguards: ");
        let safeguards = compact_items(plan.safeguards.as_slice(), "none");
        r.append(safeguards.as_str());
        r.append(
            "\n\nRules:\n- Continue from completed work; do not repeat successful tool calls unless evidence is stale, missing, or contradicted.\n- Spend the next tool round on the smallest unfinished step that can change the answer.\n- Before the final answer, verify required evidence and name any remaining gaps.",
        );
        r
    }

    /// Replaces the control note in the message list (or, when the prefix is
    /// preserved for prompt caching, appends a new one). Nothing happens on
    /// the first iteration.
    pub fn refresh_plan_recitation(
        &self,
        messages: &mut Vec<Message>,
        plan: &TaskPlanSummary,
        iteration: u32,
        max_iterations: u32,
        preserve_prefix: bool,
    )
        ensures
            messages_view(final(messages)@) == refreshed_messages(
                messages_view(old(messages)@),
                recitation_text(*plan, iteration, max_iterations),
                iteration,
                preserve_prefix,
            ),
    {
        if iteration == 0 {
            return;
        }
        if !preserve_prefix {
            remove_recitations(messages);
        }
        let note = self.plan_recitation(plan, iteration, max_iterations);
        proof {
            reveal_strlit("## Long Task Control State");
            assert(!is_blank(note@)) by {
                assert(note@[0] == '#');
                crate::text::lemma_blank_iff_trim_empty(note@);
                crate::text::lemma_ws_prefix_len_bounds(note@);
            }
        }
        match controller_state_message(note) {
            Some(message) => {
                let ghost before = messages_view(messages@);
                messages.push(message);
                assert(messages_view(messages@) =~= before.push(message@));
            },
            None => {},
        }
    }
}

/// Drops every earlier control note, keeping the other messages in order.
fn remove_recitations(messages: &mut Vec<Message>)
    ensures
        messages_view(final(messages)@) == without_recitations(messages_view(old(messages)@)),
{
    let prefix = chars_of(LONG_TASK_RECITATION_PREFIX);
    let ghost views = messages_view(messages@);
    let mut kept: Vec<Message> = Vec::new();
    let mut i: usize = 0;
    while i < messages.len()
        invariant
            i <= messages.len(),
            prefix@ == LONG_TASK_RECITATION_PREFIX@,
            views == messages_view(messages@),
            messages_view(kept@) == without_recitations(views.take(i as int)),
        decreases messages.len() - i,
    {
        proof {
            assert(views.take(i + 1).drop_last() =~= views.take(i as int));
            assert(views.take(i + 1).last() == messages@[i as int]@);
        }
        let content = chars_of(messages[i].content.as_str());
        let recitation = messages[i].role == Role::System && starts_with_chars(
            content.as_slice(),
            prefix.as_slice(),
        );
        if !recitation {
            let m = messages[i].duplicate();
            let ghost before = messages_view(kept@);
            kept.push(m);
            assert(messages_view(kept@) =~= before.push(m@));
        }
        i = i + 1;
    }
    assert(views.take(messages.len() as int) =~= views);
    *messages = kept;
}

proof fn lemma_without_recitations_has_none(ms: Seq<MessageView>)
    ensures
        recitation_count(without_recitations(ms)) == 0,
    decreases ms.len(),
{
    if ms.len() > 0 {
        lemma_without_recitations_has_none(ms.drop_last());
        if !is_recitation(ms.last()) {
            let w = without_recitations(ms.drop_last()).push(ms.last());
            assert(w.drop_last() =~= without_recitations(ms.drop_last()));
        }
    }
}

/// After a refresh that does not preserve the prefix, the message list holds
/// exactly one control note: the note is replaced, not accumulated.
pub proof fn law_recitation_is_replaced_not_accumulated(
    ms: Seq<MessageView>,
    plan: TaskPlanSummary,
    iteration: u32,
    max_iterations: u32,
)
    requires
        iteration > 0,
    ensures
        recitation_count(
            refreshed_messages(ms, recitation_text(plan, iteration, max_iterations), iteration, false),
        ) == 1,
{
    let note = recitation_text(plan, iteration, max_iterations);
    let r = refreshed_messages(ms, note, iteration, false);
    lemma_without_recitations_has_none(ms);
    assert(r.drop_last() =~= without_recitations(ms));
    reveal_strlit("## Long Task Control State");
    assert(note.subrange(0, LONG_TASK_RECITATION_PREFIX@.len() as int) =~= LONG_TASK_RECITATION_PREFIX@);
    assert(is_recitation(r.last()));
}

/// With the prefix preserved, a refresh only appends: every earlier message
/// stays where it was.
pub proof fn law_preserved_prefix_only_appends(
    ms: Seq<MessageView>,
    note: Seq<char>,
    iteration: u32,
)
    requires
        iteration > 0,
    ensures
        refreshed_messages(ms, note, iteration, true).len() == ms.len() + 1,
        refreshed_messages(ms, note, iteration, true).take(ms.len() as int) == ms,
{
    assert(refreshed_messages(ms, note, iteration, true).take(ms.len() as int) =~= ms);
}


/// After a refresh the newest message is the control note, a system
/// message that names the objective and the 1-based iteration out of the
/// budget (`Iteration: {iteration + 1}/{max_iterations}`, saturated at
/// `u32::MAX`).
pub proof fn law_note_states_objective_and_iteration(
    ms: Seq<MessageView>,
    plan: TaskPlanSummary,
    iteration: u32,
    max_iterations: u32,
    preserve_prefix: bool,
)
    requires
        iteration > 0,
        iteration < u32::MAX,
    ensures
        ({
            let r = refreshed_messages(
                ms,
                recitation_text(plan, iteration, max_iterations),
                iteration,
                preserve_prefix,
            );
            &&& r.len() > 0
            &&& r.last().role == Role::System
            &&& r.last().content == recitation_text(plan, iteration, max_iterations)
            &&& contains_seq(r.last().content, "Objective: "@ + plan.objective@)
            &&& contains_seq(
                r.last().content,
                "Iteration: "@ + decimal((iteration + 1) as nat) + "/"@ + decimal(max_iterations as nat),
            )
        }),
{
    let note = recitation_text(plan, iteration, max_iterations);
    let head = LONG_TASK_RECITATION_PREFIX@
        + "\nThis rolling control note keeps the long task anchored. Treat the original user request and active plan as still in force.\n\nObjective: "@;
    let objective = "Objective: "@ + plan.objective@;
    let iter_text = "Iteration: "@ + decimal((iteration + 1) as nat) + "/"@ + decimal(max_iterations as nat);
    let before_objective = head.len() - 11;
    reveal_strlit("Objective: ");
    reveal_strlit("\nIteration: ");
    reveal_strlit("Iteration: ");
    reveal_strlit(
        "\nThis rolling control note keeps the long task anchored. Treat the original user request and active plan as still in force.\n\nObjective: ",
    );
    assert(head.subrange(before_objective, head.len() as int) =~= "Objective: "@);
    assert(note.subrange(before_objective, before_objective + objective.len()) =~= objective);
    assert(occurs_at(note, objective, before_objective));
    let at: int = (head.len() + plan.objective@.len() + 1) as int;
    assert(note.subrange(at, at + iter_text.len()) =~= iter_text);
    assert(occurs_at(note, iter_text, at));
}

} // verus!
