//! Provider-neutral message and request types used by the agent modules.

use vstd::prelude::*;

verus! {

/// Speaker of a chat message.
#[derive(Debug, Clone, Copy, PartialEq, Eq, Structural)]
pub enum Role {
    System,
    User,
    Assistant,
    Tool,
}

/// Provider families known to the runtime.
#[derive(Debug, Clone, Copy, PartialEq, Eq, Structural)]
pub enum ProviderType {
    OpenAi,
    AzureOpenAi,
    Anthropic,
    Gemini,
    Qwen,
    OpenRouter,
    DeepSeek,
    Moonshot,
    AlibabaModelStudio,
    Ollama,
    LmStudio,
    Custom,
}

/// Reasoning effort levels a provider can be asked for.
#[derive(Debug, Clone, Copy, PartialEq, Eq, Structural)]
pub enum ReasoningEffort {
    Disabled,
    Minimal,
    Low,
    Medium,
    High,
    XHigh,
    Max,
}

/// Normalized terminal reason of one provider sample.
#[derive(Debug, Clone, PartialEq, Eq)]
pub enum FinishReason {
    Stop,
    Length,
    ToolCalls,
    ContentFilter,
    MalformedToolCall,
    ProtocolIncomplete,
    ProviderPause,
    ContextLimit,
    Other,
    Unknown(String),
}

/// A complete tool call requested by the model.
#[derive(Debug, Clone, PartialEq, Eq)]
pub struct ToolCallRequest {
    pub id: String,
    pub name: String,
    pub arguments: String,
    pub thought_signature: Option<String>,
}

/// One streamed fragment of a tool call.
#[derive(Debug, Clone, PartialEq, Eq)]
pub struct ToolCallDelta {
    pub id: String,
    pub name: Option<String>,
    pub arguments_delta: String,
    pub index: Option<u32>,
    pub thought_signature: Option<String>,
}

/// A tool as advertised to the model; `parameters` holds the JSON schema text.
#[derive(Debug, Clone, PartialEq, Eq)]
pub struct ToolDefinition {
    pub name: String,
    pub description: String,
    pub parameters: String,
}

/// One streamed chunk of a model response.
#[derive(Debug, Clone, PartialEq, Eq)]
pub struct StreamChunk {
    pub delta: String,
    pub thinking_delta: Option<String>,
    pub tool_call_delta: Option<ToolCallDelta>,
    pub finish_reason: Option<FinishReason>,
    pub usage: Option<Usage>,
}

/// A complete (non-streamed) model response.
#[derive(Debug, Clone, PartialEq, Eq)]
pub struct CompletionResponse {
    pub content: String,
    pub thinking: Option<String>,
    pub tool_calls: Option<Vec<ToolCallRequest>>,
    pub usage: Usage,
    pub finish_reason: FinishReason,
}

/// Whether a provider must receive a sample's reasoning state again when the
/// conversation continues.
#[derive(Debug, Clone, Copy, PartialEq, Eq, Structural)]
pub enum ReasoningReplayPolicy {
    Required,
    NotRequired,
    Forbidden,
    Unknown,
}

/// Token accounting a provider reports for one request.
#[derive(Debug, Clone, Copy, PartialEq, Eq, Structural)]
pub struct Usage {
    pub prompt_tokens: u32,
    pub completion_tokens: u32,
    pub total_tokens: u32,
    pub thinking_tokens: Option<u32>,
    pub cache_read_tokens: Option<u32>,
    pub cache_miss_tokens: Option<u32>,
    pub cache_creation_tokens: Option<u32>,
}

/// A part of a message's content: text, or an image given by its media
/// type and base64 data.
#[derive(Debug, Clone, PartialEq, Eq)]
pub enum ContentPart {
    Text { text: String },
    Image { media_type: String, data: String },
}

/// An image attached to a user message: its media type and base64 data.
#[derive(Debug, Clone, PartialEq, Eq)]
pub struct ImageAttachment {
    pub mime_type: String,
    pub data: String,
}

/// A chat message. `content` is the message's text; `has_images` records
/// whether it also carries image parts.
#[derive(Debug, Clone, PartialEq, Eq)]
pub struct Message {
    pub role: Role,
    pub content: String,
    pub name: Option<String>,
    pub tool_calls: Option<Vec<ToolCallRequest>>,
    pub reasoning_content: Option<String>,
    pub has_images: bool,
}

impl Message {
    /// A plain text message.
    pub fn text(role: Role, content: String) -> (m: Message)
        ensures
            m.role == role,
            m.content@ == content@,
            m.name is None,
            m.tool_calls is None,
            m.reasoning_content is None,
            !m.has_images,
    {
        Message {
            role,
            content,
            name: None,
            tool_calls: None,
            reasoning_content: None,
            has_images: false,
        }
    }

    /// A plain text message carrying a tool-call id as its name.
    pub fn text_with_name(role: Role, content: String, name: String) -> (m: Message)
        ensures
            m.role == role,
            m.content@ == content@,
            m.name == Some(name),
            m.tool_calls is None,
            m.reasoning_content is None,
            !m.has_images,
    {
        Message {
            role,
            content,
            name: Some(name),
            tool_calls: None,
            reasoning_content: None,
            has_images: false,
        }
    }

    /// The text of the message.
    pub fn text_content(&self) -> (s: String)
        ensures
            s@ == self.content@,
    {
        self.content.clone()
    }
}


pub open spec fn opt_view(o: Option<String>) -> Option<Seq<char>> {
    match o {
        Some(s) => Some(s@),
        None => None,
    }
}

/// Mathematical form of a [`ToolCallRequest`].
pub struct ToolCallView {
    pub id: Seq<char>,
    pub name: Seq<char>,
    pub arguments: Seq<char>,
    pub thought_signature: Option<Seq<char>>,
}

impl View for ToolCallRequest {
    type V = ToolCallView;

    open spec fn view(&self) -> ToolCallView {
        ToolCallView {
            id: self.id@,
            name: self.name@,
            arguments: self.arguments@,
            thought_signature: opt_view(self.thought_signature),
        }
    }
}

pub open spec fn calls_view(calls: Seq<ToolCallRequest>) -> Seq<ToolCallView> {
    calls.map_values(|c: ToolCallRequest| c@)
}

/// Mathematical form of a [`ToolDefinition`].
pub struct ToolDefinitionView {
    pub name: Seq<char>,
    pub description: Seq<char>,
    pub parameters: Seq<char>,
}

impl View for ToolDefinition {
    type V = ToolDefinitionView;

    open spec fn view(&self) -> ToolDefinitionView {
        ToolDefinitionView {
            name: self.name@,
            description: self.description@,
            parameters: self.parameters@,
        }
    }
}

pub open spec fn tools_view(tools: Seq<ToolDefinition>) -> Seq<ToolDefinitionView> {
    tools.map_values(|t: ToolDefinition| t@)
}

impl ToolDefinition {
    /// A copy with the same name, description and schema.
    pub fn duplicate(&self) -> (r: ToolDefinition)
        ensures
            r@ == self@,
    {
        ToolDefinition {
            name: self.name.clone(),
            description: self.description.clone(),
            parameters: self.parameters.clone(),
        }
    }
}

/// Copies of tool definitions.
pub fn duplicate_tools(tools: &Vec<ToolDefinition>) -> (r: Vec<ToolDefinition>)
    ensures
        tools_view(r@) == tools_view(tools@),
{
    let mut r: Vec<ToolDefinition> = Vec::new();
    let mut i: usize = 0;
    while i < tools.len()
        invariant
            i <= tools.len(),
            tools_view(r@) == tools_view(tools@).take(i as int),
        decreases tools.len() - i,
    {
        let ghost before = tools_view(r@);
        r.push(tools[i].duplicate());
        assert(tools_view(r@) =~= before.push(tools@[i as int]@));
        assert(tools_view(tools@).take(i + 1) =~= tools_view(tools@).take(i as int).push(
            tools@[i as int]@,
        ));
        i = i + 1;
    }
    assert(tools_view(tools@).take(i as int) =~= tools_view(tools@));
    r
}

/// Mathematical form of a [`Message`].
pub struct MessageView {
    pub role: Role,
    pub content: Seq<char>,
    pub name: Option<Seq<char>>,
    pub tool_calls: Option<Seq<ToolCallView>>,
    pub reasoning_content: Option<Seq<char>>,
    pub has_images: bool,
}

impl View for Message {
    type V = MessageView;

    open spec fn view(&self) -> MessageView {
        MessageView {
            role: self.role,
            content: self.content@,
            name: opt_view(self.name),
            tool_calls: match self.tool_calls {
                Some(calls) => Some(calls_view(calls@)),
                None => None,
            },
            reasoning_content: opt_view(self.reasoning_content),
            has_images: self.has_images,
        }
    }
}

pub open spec fn messages_view(messages: Seq<Message>) -> Seq<MessageView> {
    messages.map_values(|m: Message| m@)
}

/// A plain system/user/assistant/tool text message in mathematical form.
pub open spec fn text_message(role: Role, content: Seq<char>) -> MessageView {
    MessageView {
        role,
        content,
        name: None,
        tool_calls: None,
        reasoning_content: None,
        has_images: false,
    }
}

pub fn clone_opt_string(o: &Option<String>) -> (r: Option<String>)
    ensures
        opt_view(r) == opt_view(*o),
{
    match o {
        Some(s) => Some(s.clone()),
        None => None,
    }
}

impl ToolCallRequest {
    /// A copy with the same contents.
    pub fn duplicate(&self) -> (r: ToolCallRequest)
        ensures
            r@ == self@,
    {
        ToolCallRequest {
            id: self.id.clone(),
            name: self.name.clone(),
            arguments: self.arguments.clone(),
            thought_signature: clone_opt_string(&self.thought_signature),
        }
    }
}

/// A copy of a list of tool calls with the same contents.
pub fn duplicate_calls(calls: &Vec<ToolCallRequest>) -> (r: Vec<ToolCallRequest>)
    ensures
        calls_view(r@) == calls_view(calls@),
{
    let mut r: Vec<ToolCallRequest> = Vec::new();
    let mut i: usize = 0;
    while i < calls.len()
        invariant
            i <= calls.len(),
            r.len() == i,
            forall|k: int| 0 <= k < i ==> (#[trigger] r@[k])@ == calls@[k]@,
        decreases calls.len() - i,
    {
        r.push(calls[i].duplicate());
        i = i + 1;
    }
    assert(calls_view(r@) =~= calls_view(calls@));
    r
}

impl Message {
    /// A copy with the same contents.
    pub fn duplicate(&self) -> (r: Message)
        ensures
            r@ == self@,
    {
        Message {
            role: self.role,
            content: self.content.clone(),
            name: clone_opt_string(&self.name),
            tool_calls: match &self.tool_calls {
                Some(calls) => Some(duplicate_calls(calls)),
                None => None,
            },
            reasoning_content: clone_opt_string(&self.reasoning_content),
            has_images: self.has_images,
        }
    }
}

} // verus!
