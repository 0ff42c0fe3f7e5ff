use chat_coordinator::event::Event;
use chat_coordinator::message::Message;
use chat_coordinator::state::PromptState;
use chat_coordinator::store::StoreError;
use chat_coordinator::templates::MessageTemplate;
use chat_coordinator::tools::{
    decode_json_string, GenerateImage, GenerateImageArgs, ToolDispatcher, ToolKind,
};
use tokio::sync::mpsc::{channel, Receiver};

fn tool_events(rx: &mut Receiver<Event>) -> Vec<Event> {
    let mut events = Vec::new();
    while let Ok(event) = rx.try_recv() {
        events.push(event);
    }
    events
}

fn state_with_prompt() -> (PromptState, Receiver<Event>) {
    let (tx, rx) = channel::<Event>(100);
    let mut state = PromptState::new();
    state.attach(tx);
    state.send_message(Message::user("draw a cat".to_string()));
    (state, rx)
}

#[test]
fn image_tool_is_known_by_name() {
    assert_eq!(GenerateImage::name(), "generate_image");
    assert_eq!(ToolKind::from_name("generate_image"), Some(ToolKind::GenerateImage));
    assert_eq!(ToolKind::GenerateImage.name(), "generate_image");
    assert_eq!(ToolKind::from_name("generate_images"), None);
    assert_eq!(ToolKind::from_name("Generate_Image"), None);
    assert_eq!(ToolKind::from_name(""), None);
}

#[test]
fn image_tool_definition() {
    let definition = GenerateImage {}.definition();
    assert_eq!(definition.name, "generate_image");
    assert_eq!(definition.description, "Generate an image for the user");
    let parameters: serde_json::Value = serde_json::from_str(&definition.parameters).unwrap();
    assert_eq!(parameters["type"], "object");
    assert_eq!(parameters["properties"]["prompt"]["type"], "string");
    assert_eq!(
        parameters["properties"]["prompt"]["description"],
        "The description of the image you want to generate"
    );
}

#[test]
fn image_tool_arguments_hold_the_prompt() {
    let args = GenerateImageArgs { prompt: "a cat".to_string() };
    assert_eq!(args.prompt, "a cat");
}

#[test]
fn image_paths() {
    assert_eq!(GenerateImage::image_dir(), "static/temp/images");
    assert_eq!(
        GenerateImage::image_path(1700000000123),
        "static/temp/images/1700000000123.png"
    );
    assert_eq!(GenerateImage::image_path(0), "static/temp/images/0.png");
    assert_eq!(
        GenerateImage::image_url("static/temp/images/5.png"),
        "/static/temp/images/5.png"
    );
}

#[test]
fn image_result_is_rendered_as_an_image() {
    assert_eq!(
        ToolKind::GenerateImage.render("/static/temp/images/5.png"),
        "<img src=\"/static/temp/images/5.png\"/>"
    );
}

#[test]
fn json_strings_are_decoded() {
    assert_eq!(decode_json_string("\"/static/a.png\""), Some("/static/a.png".to_string()));
    assert_eq!(decode_json_string("\"a\\nb \\\"q\\\" \\u00e9\""), Some("a\nb \"q\" \u{e9}".to_string()));
    assert_eq!(decode_json_string("  \"x\"  "), Some("x".to_string()));
    assert_eq!(decode_json_string("\"\""), Some("".to_string()));
    assert_eq!(decode_json_string("/static/a.png"), None);
    assert_eq!(decode_json_string("\"unterminated"), None);
    assert_eq!(decode_json_string("\"a\" \"b\""), None);
    assert_eq!(decode_json_string("42"), None);
    assert_eq!(decode_json_string("null"), None);
    assert_eq!(decode_json_string("[\"a\"]"), None);
    assert_eq!(decode_json_string(""), None);
}

#[test]
fn known_tool_gets_an_empty_message() {
    let (mut state, mut rx) = state_with_prompt();
    tool_events(&mut rx);
    let call = ToolDispatcher::dispatch(&mut state, "generate_image").unwrap();
    assert_eq!(call.index(), 1);
    assert_eq!(call.kind(), ToolKind::GenerateImage);
    assert_eq!(state.snapshot()[1], Message::placeholder());
    assert_eq!(
        tool_events(&mut rx),
        vec![Event::NewMessage(MessageTemplate { index: 1, message: Message::placeholder() })]
    );
}

#[test]
fn unknown_tool_changes_nothing() {
    let (mut state, mut rx) = state_with_prompt();
    tool_events(&mut rx);
    assert!(ToolDispatcher::dispatch(&mut state, "launch_rocket").is_none());
    assert_eq!(state.len(), 1);
    assert_eq!(tool_events(&mut rx), vec![]);
}

#[test]
fn tool_output_is_decoded_and_written() {
    let (mut state, mut rx) = state_with_prompt();
    let call = ToolDispatcher::dispatch(&mut state, "generate_image").unwrap();
    tool_events(&mut rx);
    let output = "\"/static/temp/images/17.png\"".to_string();
    assert_eq!(ToolDispatcher::complete(&mut state, call, Some(output)), Ok(()));
    assert_eq!(
        state.snapshot()[1],
        Message::assistant("<img src=\"/static/temp/images/17.png\"/>".to_string())
    );
    assert_eq!(
        tool_events(&mut rx),
        vec![Event::UpdateMessage {
            index: 1,
            span: "<img src=\"/static/temp/images/17.png\"/>".to_string()
        }]
    );
}

#[test]
fn failed_tool_leaves_the_message_empty() {
    let (mut state, mut rx) = state_with_prompt();
    let call = ToolDispatcher::dispatch(&mut state, "generate_image").unwrap();
    tool_events(&mut rx);
    assert_eq!(ToolDispatcher::complete(&mut state, call, None), Ok(()));
    assert_eq!(state.snapshot()[1], Message::placeholder());
    assert_eq!(tool_events(&mut rx), vec![]);
}

#[test]
fn malformed_tool_output_leaves_the_message_empty() {
    let (mut state, mut rx) = state_with_prompt();
    let call = ToolDispatcher::dispatch(&mut state, "generate_image").unwrap();
    tool_events(&mut rx);
    let output = "/static/temp/images/17.png".to_string();
    assert_eq!(ToolDispatcher::complete(&mut state, call, Some(output)), Ok(()));
    assert_eq!(state.snapshot()[1], Message::placeholder());
    assert_eq!(tool_events(&mut rx), vec![]);
}

#[test]
fn resolve_writes_the_value_as_given() {
    let (mut state, mut rx) = state_with_prompt();
    let call = ToolDispatcher::dispatch(&mut state, "generate_image").unwrap();
    tool_events(&mut rx);
    assert_eq!(ToolDispatcher::resolve(&mut state, call, Some("\"x\"".to_string())), Ok(()));
    assert_eq!(state.snapshot()[1].content(), "<img src=\"\"x\"\"/>");
    assert_eq!(tool_events(&mut rx).len(), 1);
}

#[test]
fn result_for_another_transcript_is_rejected() {
    let (mut state, _rx) = state_with_prompt();
    let call = ToolDispatcher::dispatch(&mut state, "generate_image").unwrap();
    let mut other = PromptState::new();
    assert_eq!(
        ToolDispatcher::complete(&mut other, call, Some("\"/a.png\"".to_string())),
        Err(StoreError::InvalidIndex)
    );
    assert_eq!(other.len(), 0);
}

#[test]
fn tool_results_do_not_wait_for_each_other() {
    let (mut state, _rx) = state_with_prompt();
    let first = ToolDispatcher::dispatch(&mut state, "generate_image").unwrap();
    let second = ToolDispatcher::dispatch(&mut state, "generate_image").unwrap();
    assert_eq!((first.index(), second.index()), (1, 2));
    ToolDispatcher::complete(&mut state, second, Some("\"/b.png\"".to_string())).unwrap();
    assert_eq!(state.snapshot()[1].content(), "");
    ToolDispatcher::complete(&mut state, first, Some("\"/a.png\"".to_string())).unwrap();
    assert_eq!(state.snapshot()[1].content(), "<img src=\"/a.png\"/>");
    assert_eq!(state.snapshot()[2].content(), "<img src=\"/b.png\"/>");
}
