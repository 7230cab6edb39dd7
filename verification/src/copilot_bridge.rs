//! What crosses between the agent's tools and a Copilot session: a tool's
//! output as the result the model reads, and a steering message's images as
//! session attachments.

use vstd::prelude::*;

use crate::llm::ContentPart;

verus! {

/// The description attached to every image a tool hands back to the model.
pub const TOOL_IMAGE_DESCRIPTION: &'static str = "Current Nexa tool observation";

/// An image passed on to the model: its media type and base64 data.
#[derive(Debug, Clone, PartialEq, Eq)]
pub struct BridgedImage {
    pub mime_type: String,
    pub data: String,
}

/// Whether a tool call succeeded, as the session is told.
#[derive(Debug, Clone, Copy, PartialEq, Eq, Structural)]
pub enum ToolResultType {
    Success,
    Failure,
}

impl ToolResultType {
    /// The session's name for the result type.
    pub fn as_str(self) -> (s: &'static str)
        ensures
            s@ == (match self {
                ToolResultType::Success => "success"@,
                ToolResultType::Failure => "failure"@,
            }),
    {
        proof {
            reveal_strlit("success");
            reveal_strlit("failure");
        }
        match self {
            ToolResultType::Success => "success",
            ToolResultType::Failure => "failure",
        }
    }
}

/// A tool's outcome in the form the session hands to the model.
#[derive(Debug, Clone)]
pub struct BridgedToolResult {
    pub text_result_for_llm: String,
    pub result_type: ToolResultType,
    pub binary_results_for_llm: Option<Vec<BridgedImage>>,
}

/// The text the model reads: the tool's content, then each text part of its
/// visual output on a line of its own.
pub open spec fn bridged_text(content: Seq<char>, parts: Seq<ContentPart>) -> Seq<char>
    decreases parts.len(),
{
    if parts.len() == 0 {
        content
    } else {
        let prev = bridged_text(content, parts.drop_last());
        match parts.last() {
            ContentPart::Text { text } => prev + seq!['\n'] + text@,
            ContentPart::Image { .. } => prev,
        }
    }
}

/// The image parts of `parts`, in order, as (media type, data).
pub open spec fn image_parts(parts: Seq<ContentPart>) -> Seq<(Seq<char>, Seq<char>)>
    decreases parts.len(),
{
    if parts.len() == 0 {
        seq![]
    } else {
        let prev = image_parts(parts.drop_last());
        match parts.last() {
            ContentPart::Image { media_type, data } => prev.push((media_type@, data@)),
            ContentPart::Text { .. } => prev,
        }
    }
}

pub open spec fn image_view(i: BridgedImage) -> (Seq<char>, Seq<char>) {
    (i.mime_type@, i.data@)
}

pub open spec fn images_view(v: Seq<BridgedImage>) -> Seq<(Seq<char>, Seq<char>)> {
    v.map_values(|i: BridgedImage| image_view(i))
}

/// Appends `part`'s image, if it is one, to `images`.
fn push_image_part(images: &mut Vec<BridgedImage>, part: &ContentPart)
    ensures
        images_view(final(images)@) == (match *part {
            ContentPart::Image { media_type, data } => images_view(old(images)@).push((media_type@, data@)),
            ContentPart::Text { .. } => images_view(old(images)@),
        }),
{
    match part {
        ContentPart::Image { media_type, data } => {
            images.push(BridgedImage { mime_type: media_type.clone(), data: data.clone() });
            assert(images_view(images@) =~= images_view(old(images)@).push((media_type@, data@)));
        },
        ContentPart::Text { .. } => {},
    }
}

/// The images among `parts`, in order.
pub fn image_attachments(parts: &[ContentPart]) -> (v: Vec<BridgedImage>)
    ensures
        images_view(v@) == image_parts(parts@),
{
    let mut v: Vec<BridgedImage> = Vec::new();
    let mut i: usize = 0;
    while i < parts.len()
        invariant
            i <= parts@.len(),
            images_view(v@) == image_parts(parts@.take(i as int)),
        decreases parts@.len() - i,
    {
        assert(parts@.take(i + 1).drop_last() =~= parts@.take(i as int));
        push_image_part(&mut v, &parts[i]);
        i += 1;
    }
    assert(parts@.take(parts@.len() as int) =~= parts@);
    v
}

/// A successful tool execution as the model reads it: the text result with
/// the text parts of the visual output appended, `failure` when the tool
/// reported an error and `success` otherwise, and the image parts as binary
/// results when there are any.
pub fn bridge_tool_output(content: String, is_error: bool, visual_parts: &[ContentPart]) -> (r:
    BridgedToolResult)
    ensures
        r.text_result_for_llm@ == bridged_text(content@, visual_parts@),
        r.result_type == (if is_error {
            ToolResultType::Failure
        } else {
            ToolResultType::Success
        }),
        match r.binary_results_for_llm {
            None => image_parts(visual_parts@).len() == 0,
            Some(images) => images@.len() > 0 && images_view(images@) == image_parts(
                visual_parts@,
            ),
        },
{
    let mut text = content;
    let mut images: Vec<BridgedImage> = Vec::new();
    let mut i: usize = 0;
    while i < visual_parts.len()
        invariant
            i <= visual_parts@.len(),
            text@ == bridged_text(content@, visual_parts@.take(i as int)),
            images_view(images@) == image_parts(visual_parts@.take(i as int)),
        decreases visual_parts@.len() - i,
    {
        assert(visual_parts@.take(i + 1).drop_last() =~= visual_parts@.take(i as int));
        match &visual_parts[i] {
            ContentPart::Text { text: part } => {
                text.append("\n");
                text.append(part.as_str());
                proof {
                    reveal_strlit("\n");
                }
            },
            ContentPart::Image { .. } => {},
        }
        push_image_part(&mut images, &visual_parts[i]);
        i += 1;
    }
    assert(visual_parts@.take(visual_parts@.len() as int) =~= visual_parts@);
    let result_type = if is_error {
        ToolResultType::Failure
    } else {
        ToolResultType::Success
    };
    let binary_results_for_llm = if images.len() == 0 {
        None
    } else {
        Some(images)
    };
    BridgedToolResult { text_result_for_llm: text, result_type, binary_results_for_llm }
}

/// A tool execution that failed outright: its error message, as a failure
/// with no images.
pub fn bridge_tool_error(message: String) -> (r: BridgedToolResult)
    ensures
        r.text_result_for_llm@ == message@,
        r.result_type == ToolResultType::Failure,
        r.binary_results_for_llm is None,
{
    BridgedToolResult {
        text_result_for_llm: message,
        result_type: ToolResultType::Failure,
        binary_results_for_llm: None,
    }
}

/// Why a steering message cannot be passed on to a Copilot session.
#[derive(Debug, Clone, Copy, PartialEq, Eq, Structural)]
pub enum SteeringDeliveryError {
    /// The message asks to change the model's recovery controls.
    RecoveryControl,
    /// The message carries images and the model does not read them.
    ImagesUnsupported,
}

impl SteeringDeliveryError {
    pub open spec fn message_spec(self) -> Seq<char> {
        match self {
            SteeringDeliveryError::RecoveryControl =>
                "Copilot manages its own recovery. Stop and start a new turn to change reasoning."@,
            SteeringDeliveryError::ImagesUnsupported =>
                "the selected Copilot model does not accept steering images"@,
        }
    }

    /// The error's text.
    pub fn message(self) -> (s: &'static str)
        ensures
            s@ == self.message_spec(),
    {
        proof {
            reveal_strlit(
                "Copilot manages its own recovery. Stop and start a new turn to change reasoning.",
            );
            reveal_strlit("the selected Copilot model does not accept steering images");
        }
        match self {
            SteeringDeliveryError::RecoveryControl =>
                "Copilot manages its own recovery. Stop and start a new turn to change reasoning.",
            SteeringDeliveryError::ImagesUnsupported =>
                "the selected Copilot model does not accept steering images",
        }
    }
}

/// The attachments with which a steering message is sent to the session:
/// refused when it carries recovery controls, or images that the model
/// cannot read; otherwise its image parts, in order.
pub fn steering_attachments(parts: &[ContentPart], has_recovery_control: bool, native_vision: bool) -> (r:
    Result<Vec<BridgedImage>, SteeringDeliveryError>)
    ensures
        has_recovery_control ==> r == Err::<Vec<BridgedImage>, SteeringDeliveryError>(
            SteeringDeliveryError::RecoveryControl,
        ),
        !has_recovery_control && !native_vision && image_parts(parts@).len() > 0 ==> r == Err::<
            Vec<BridgedImage>,
            SteeringDeliveryError,
        >(SteeringDeliveryError::ImagesUnsupported),
        r is Ok <==> !has_recovery_control && (native_vision || image_parts(parts@).len() == 0),
        r matches Ok(v) ==> images_view(v@) == image_parts(parts@),
{
    if has_recovery_control {
        return Err(SteeringDeliveryError::RecoveryControl);
    }
    let attachments = image_attachments(parts);
    if !native_vision && attachments.len() > 0 {
        return Err(SteeringDeliveryError::ImagesUnsupported);
    }
    Ok(attachments)
}

/// Appending visual output never alters the tool's own text: what the model
/// reads begins with the tool's content.
pub proof fn law_bridged_text_begins_with_the_content(content: Seq<char>, parts: Seq<ContentPart>)
    ensures
        bridged_text(content, parts).len() >= content.len(),
        bridged_text(content, parts).subrange(0, content.len() as int) == content,
    decreases parts.len(),
{
    if parts.len() > 0 {
        law_bridged_text_begins_with_the_content(content, parts.drop_last());
        let prev = bridged_text(content, parts.drop_last());
        match parts.last() {
            ContentPart::Text { text } => {
                assert((prev + seq!['\n'] + text@).subrange(0, content.len() as int)
                    =~= prev.subrange(0, content.len() as int));
            },
            ContentPart::Image { .. } => {},
        }
    }
}

} // verus!
