//! Provider-neutral prompt model for agent requests.
//!
//! Policy, runtime context, evidence, transcript, controller state and tool
//! surface stay apart until the final compile step turns them into the
//! message list a provider consumes.

use vstd::prelude::*;

use crate::llm::{messages_view, text_message, Message, MessageView, Role, ToolDefinition};
use crate::text::{
    chars_are_blank, chars_of, is_blank, join_chars, join_with, nonblank_trimmed,
    nonblank_trimmed_chars, string_of, vec_views,
};

verus! {

/// Where a block of prompt text belongs.
#[derive(Debug, Clone, Copy, PartialEq, Eq, Structural)]
pub enum PromptLayer {
    Policy,
    Developer,
    Runtime,
    Evidence,
    Transcript,
    ControllerState,
}

/// A non-blank piece of prompt text tagged with its layer.
#[derive(Debug, Clone, PartialEq, Eq)]
pub struct PromptBlock {
    pub layer: PromptLayer,
    pub content: String,
}

impl PromptBlock {
    /// A block, or `None` when `content` is blank.
    pub fn new(layer: PromptLayer, content: String) -> (r: Option<PromptBlock>)
        ensures
            r is None <==> is_blank(content@),
            r matches Some(b) ==> b.layer == layer && b.content@ == content@,
    {
        let chars = chars_of(content.as_str());
        if chars_are_blank(chars.as_slice()) {
            return None;
        }
        Some(PromptBlock { layer, content })
    }
}

/// The system message a non-blank block compiles to on its own.
pub open spec fn standalone_system_message(content: Seq<char>) -> Option<MessageView> {
    if is_blank(content) {
        None
    } else {
        Some(text_message(Role::System, content))
    }
}

/// A system message holding controller state, or `None` for blank content.
pub fn controller_state_message(content: String) -> (r: Option<Message>)
    ensures
        match r {
            Some(m) => standalone_system_message(content@) == Some(m@),
            None => standalone_system_message(content@) is None,
        },
{
    match PromptBlock::new(PromptLayer::ControllerState, content) {
        Some(block) => Some(Message::text(Role::System, block.content)),
        None => None,
    }
}

/// A system message holding retrieved evidence, or `None` for blank content.
pub fn evidence_message(content: String) -> (r: Option<Message>)
    ensures
        match r {
            Some(m) => standalone_system_message(content@) == Some(m@),
            None => standalone_system_message(content@) is None,
        },
{
    match PromptBlock::new(PromptLayer::Evidence, content) {
        Some(block) => Some(Message::text(Role::System, block.content)),
        None => None,
    }
}

/// The tools offered to the model.
#[derive(Debug, Clone)]
pub struct ToolSurface {
    pub definitions: Vec<ToolDefinition>,
}

impl Default for ToolSurface {
    fn default() -> (s: ToolSurface)
        ensures
            s.definitions@.len() == 0,
    {
        ToolSurface { definitions: Vec::new() }
    }
}

/// One agent request before it is compiled to provider messages.
#[derive(Debug, Clone)]
pub struct AgentPrompt {
    pub policy: Vec<PromptBlock>,
    pub developer: Vec<PromptBlock>,
    pub runtime: Vec<PromptBlock>,
    pub evidence: Vec<PromptBlock>,
    pub transcript: Vec<Message>,
    pub current_user: Option<Message>,
    pub controller_state: Vec<PromptBlock>,
    pub tools: ToolSurface,
}

impl Default for AgentPrompt {
    fn default() -> (p: AgentPrompt)
        ensures
            p.policy@.len() == 0,
            p.developer@.len() == 0,
            p.runtime@.len() == 0,
            p.evidence@.len() == 0,
            p.transcript@.len() == 0,
            p.current_user is None,
            p.controller_state@.len() == 0,
            p.tools.definitions@.len() == 0,
    {
        AgentPrompt {
            policy: Vec::new(),
            developer: Vec::new(),
            runtime: Vec::new(),
            evidence: Vec::new(),
            transcript: Vec::new(),
            current_user: None,
            controller_state: Vec::new(),
            tools: ToolSurface::default(),
        }
    }
}

/// Where the runtime/evidence/controller-state context goes.
#[derive(Debug, Clone, Copy, PartialEq, Eq, Structural)]
pub enum RuntimePlacement {
    AfterPolicy,
    Tail,
}

/// Options of the compile step.
#[derive(Debug, Clone, Copy, PartialEq, Eq, Structural)]
pub struct PromptCompileOptions {
    pub runtime_placement: RuntimePlacement,
}

impl Default for PromptCompileOptions {
    fn default() -> (o: PromptCompileOptions)
        ensures
            o.runtime_placement == RuntimePlacement::AfterPolicy,
    {
        PromptCompileOptions { runtime_placement: RuntimePlacement::AfterPolicy }
    }
}

/// The texts of a list of blocks.
pub open spec fn block_texts(blocks: Seq<PromptBlock>) -> Seq<Seq<char>> {
    blocks.map_values(|b: PromptBlock| b.content@)
}

pub open spec fn paragraph_break() -> Seq<char> {
    seq!['\n', '\n']
}

/// The trimmed non-blank texts joined by blank lines, or `None` if there are none.
pub open spec fn joined_text(texts: Seq<Seq<char>>) -> Option<Seq<char>> {
    let parts = nonblank_trimmed(texts);
    if parts.len() == 0 {
        None
    } else {
        Some(join_with(parts, paragraph_break()))
    }
}

/// A system message for joined text, or nothing.
pub open spec fn system_part(text: Option<Seq<char>>) -> Seq<MessageView> {
    match text {
        Some(t) => seq![text_message(Role::System, t)],
        None => Seq::empty(),
    }
}

impl AgentPrompt {
    /// The policy and developer texts.
    pub open spec fn policy_texts(&self) -> Seq<Seq<char>> {
        block_texts(self.policy@) + block_texts(self.developer@)
    }

    /// The runtime, evidence and controller-state texts.
    pub open spec fn context_texts(&self) -> Seq<Seq<char>> {
        block_texts(self.runtime@) + block_texts(self.evidence@) + block_texts(
            self.controller_state@,
        )
    }

    /// The message list a prompt compiles to.
    pub open spec fn compiled(&self, placement: RuntimePlacement) -> Seq<MessageView> {
        let head = system_part(joined_text(self.policy_texts()));
        let context = system_part(joined_text(self.context_texts()));
        let user = match self.current_user {
            Some(m) => seq![m@],
            None => Seq::<MessageView>::empty(),
        };
        match placement {
            RuntimePlacement::AfterPolicy => head + context + messages_view(self.transcript@)
                + user,
            RuntimePlacement::Tail => head + messages_view(self.transcript@) + user + context,
        }
    }

    /// Compiles the prompt: one system message for policy and developer
    /// blocks, one for the context blocks (after the policy or at the tail),
    /// the transcript, and the current user message.
    pub fn compile_to_messages(&self, options: PromptCompileOptions) -> (r: Vec<Message>)
        ensures
            messages_view(r@) == self.compiled(options.runtime_placement),
    {
        let mut messages: Vec<Message> = Vec::new();
        if let Some(policy_text) = self.policy_text() {
            messages.push(Message::text(Role::System, policy_text));
        }
        let ghost head = messages_view(messages@);
        assert(head == system_part(joined_text(self.policy_texts())));
        let context = self.context_text();
        if options.runtime_placement == RuntimePlacement::AfterPolicy {
            if let Some(context_text) = context {
                messages.push(Message::text(Role::System, context_text));
                assert(messages_view(messages@) =~= head + system_part(
                    joined_text(self.context_texts()),
                ));
            }
            assert(messages_view(messages@) =~= head + system_part(
                joined_text(self.context_texts()),
            ));
            append_messages(&mut messages, &self.transcript);
            if let Some(current_user) = &self.current_user {
                messages.push(current_user.duplicate());
            }
            assert(messages_view(messages@) =~= self.compiled(options.runtime_placement));
        } else {
            append_messages(&mut messages, &self.transcript);
            if let Some(current_user) = &self.current_user {
                messages.push(current_user.duplicate());
            }
            let ghost before = messages_view(messages@);
            if let Some(context_text) = context {
                messages.push(Message::text(Role::System, context_text));
            }
            assert(messages_view(messages@) =~= before + system_part(
                joined_text(self.context_texts()),
            ));
            assert(messages_view(messages@) =~= self.compiled(options.runtime_placement));
        }
        messages
    }

    fn policy_text(&self) -> (r: Option<String>)
        ensures
            crate::llm::opt_view(r) == joined_text(self.policy_texts()),
    {
        let mut texts: Vec<Vec<char>> = Vec::new();
        push_block_texts(&mut texts, &self.policy);
        push_block_texts(&mut texts, &self.developer);
        assert(vec_views(texts@) =~= self.policy_texts());
        joined_blocks(&texts)
    }

    fn context_text(&self) -> (r: Option<String>)
        ensures
            crate::llm::opt_view(r) == joined_text(self.context_texts()),
    {
        let mut texts: Vec<Vec<char>> = Vec::new();
        push_block_texts(&mut texts, &self.runtime);
        push_block_texts(&mut texts, &self.evidence);
        push_block_texts(&mut texts, &self.controller_state);
        assert(vec_views(texts@) =~= self.context_texts());
        joined_blocks(&texts)
    }
}

/// Appends the characters of each block's text.
fn push_block_texts(out: &mut Vec<Vec<char>>, blocks: &Vec<PromptBlock>)
    ensures
        vec_views(final(out)@) == vec_views(old(out)@) + block_texts(blocks@),
{
    let mut i: usize = 0;
    while i < blocks.len()
        invariant
            i <= blocks.len(),
            vec_views(out@) == vec_views(old(out)@) + block_texts(blocks@.take(i as int)),
        decreases blocks.len() - i,
    {
        let ghost prev = out@;
        let text = chars_of(blocks[i].content.as_str());
        assert(text@ == blocks@[i as int].content@);
        out.push(text);
        assert(vec_views(out@) =~= vec_views(prev).push(text@));
        assert(blocks@.take(i + 1) =~= blocks@.take(i as int).push(blocks@[i as int]));
        assert(block_texts(blocks@.take(i + 1)) =~= block_texts(blocks@.take(i as int)).push(
            blocks@[i as int].content@,
        ));
        assert(vec_views(out@) =~= vec_views(old(out)@) + block_texts(blocks@.take(i + 1)));
        i = i + 1;
    }
    assert(blocks@.take(blocks.len() as int) =~= blocks@);
}

/// Appends copies of `src` to `dst`.
fn append_messages(dst: &mut Vec<Message>, src: &Vec<Message>)
    ensures
        messages_view(final(dst)@) == messages_view(old(dst)@) + messages_view(src@),
{
    let mut i: usize = 0;
    while i < src.len()
        invariant
            i <= src.len(),
            messages_view(dst@) == messages_view(old(dst)@) + messages_view(src@.take(i as int)),
        decreases src.len() - i,
    {
        let ghost prev = dst@;
        let m = src[i].duplicate();
        dst.push(m);
        assert(messages_view(dst@) =~= messages_view(prev).push(m@));
        assert(src@.take(i + 1) =~= src@.take(i as int).push(src@[i as int]));
        assert(messages_view(src@.take(i + 1)) =~= messages_view(src@.take(i as int)).push(
            src@[i as int]@,
        ));
        assert(messages_view(dst@) =~= messages_view(old(dst)@) + messages_view(
            src@.take(i + 1),
        ));
        i = i + 1;
    }
    assert(src@.take(src.len() as int) =~= src@);
}

/// Joins the trimmed non-blank texts with blank lines.
fn joined_blocks(texts: &Vec<Vec<char>>) -> (r: Option<String>)
    ensures
        crate::llm::opt_view(r) == joined_text(vec_views(texts@)),
{
    let parts = nonblank_trimmed_chars(texts);
    if parts.len() == 0 {
        return None;
    }
    let sep: Vec<char> = vec!['\n', '\n'];
    let joined = join_chars(&parts, sep.as_slice());
    assert(sep@ =~= paragraph_break());
    Some(string_of(joined.as_slice()))
}

} // verus!
