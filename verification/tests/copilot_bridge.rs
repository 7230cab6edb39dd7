use nexa_core::copilot_bridge::{
    bridge_tool_error, bridge_tool_output, image_attachments, steering_attachments,
    SteeringDeliveryError, ToolResultType,
};
use nexa_core::llm::ContentPart;

fn text(t: &str) -> ContentPart {
    ContentPart::Text { text: t.to_string() }
}

fn image(media_type: &str, data: &str) -> ContentPart {
    ContentPart::Image { media_type: media_type.to_string(), data: data.to_string() }
}

#[test]
fn tool_output_appends_text_parts_and_collects_images() {
    let parts = vec![text("first"), image("image/png", "AAA"), text("second")];
    let r = bridge_tool_output("result".to_string(), false, &parts);
    assert_eq!(r.text_result_for_llm, "result\nfirst\nsecond");
    assert_eq!(r.result_type, ToolResultType::Success);
    assert_eq!(r.result_type.as_str(), "success");
    let images = r.binary_results_for_llm.expect("one image");
    assert_eq!(images.len(), 1);
    assert_eq!(images[0].mime_type, "image/png");
    assert_eq!(images[0].data, "AAA");
}

#[test]
fn tool_output_without_images_has_no_binary_results() {
    let r = bridge_tool_output("boom".to_string(), true, &[text("detail")]);
    assert_eq!(r.text_result_for_llm, "boom\ndetail");
    assert_eq!(r.result_type, ToolResultType::Failure);
    assert_eq!(r.result_type.as_str(), "failure");
    assert!(r.binary_results_for_llm.is_none());
}

#[test]
fn tool_output_with_no_visual_parts_is_the_content() {
    let r = bridge_tool_output("plain".to_string(), false, &[]);
    assert_eq!(r.text_result_for_llm, "plain");
    assert!(r.binary_results_for_llm.is_none());
}

#[test]
fn tool_error_is_a_failure_with_its_message() {
    let r = bridge_tool_error("tool crashed".to_string());
    assert_eq!(r.text_result_for_llm, "tool crashed");
    assert_eq!(r.result_type, ToolResultType::Failure);
    assert!(r.binary_results_for_llm.is_none());
}

#[test]
fn image_attachments_keep_order_and_skip_text() {
    let parts = vec![image("image/png", "A"), text("x"), image("image/jpeg", "B")];
    let v = image_attachments(&parts);
    assert_eq!(v.len(), 2);
    assert_eq!(v[0].mime_type, "image/png");
    assert_eq!(v[1].mime_type, "image/jpeg");
    assert_eq!(v[1].data, "B");
}

#[test]
fn steering_images_need_a_vision_model() {
    let parts = vec![text("look"), image("image/png", "A")];
    assert_eq!(
        steering_attachments(&parts, false, false).unwrap_err(),
        SteeringDeliveryError::ImagesUnsupported
    );
    assert_eq!(
        SteeringDeliveryError::ImagesUnsupported.message(),
        "the selected Copilot model does not accept steering images"
    );
    assert_eq!(steering_attachments(&parts, false, true).unwrap().len(), 1);
    assert_eq!(steering_attachments(&[text("only text")], false, false).unwrap().len(), 0);
}

#[test]
fn steering_recovery_controls_are_refused_first() {
    let parts = vec![image("image/png", "A")];
    assert_eq!(
        steering_attachments(&parts, true, true).unwrap_err(),
        SteeringDeliveryError::RecoveryControl
    );
    assert_eq!(
        SteeringDeliveryError::RecoveryControl.message(),
        "Copilot manages its own recovery. Stop and start a new turn to change reasoning."
    );
}
