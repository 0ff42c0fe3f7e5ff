//! Tools that the model may call in the middle of a reply. A call gets an
//! empty message of its own in the transcript at once; the result is written
//! into that message when the tool is done, while the reply goes on.

use vstd::prelude::*;
use crate::message::Message;
use crate::state::{PromptState, PromptStateView};
use crate::store::StoreError;
use crate::text::{decimal, push_decimal, text_view};

verus! {

/// The image generation tool.
#[derive(Debug, PartialEq, Eq)]
pub struct GenerateImage {}

/// What the model hands to [`GenerateImage`].
#[derive(Debug, PartialEq, Eq)]
pub struct GenerateImageArgs {
    pub prompt: String,
}

/// The shape of the arguments of the image tool, as a JSON schema.
pub const IMAGE_TOOL_PARAMETERS: &'static str =
    "{\"type\":\"object\",\"properties\":{\"prompt\":{\"type\":\"string\",\"description\":\
    \"The description of the image you want to generate\"}}}";

/// How a tool presents itself to the model.
#[derive(Debug, PartialEq, Eq)]
pub struct ToolDefinition {
    pub name: String,
    pub description: String,
    /// The shape of the arguments, as a JSON schema.
    pub parameters: String,
}

impl GenerateImage {
    /// The name by which the model calls the tool.
    pub fn name() -> (name: &'static str)
        ensures
            name@ == "generate_image"@,
    {
        "generate_image"
    }

    /// How the tool presents itself to the model.
    pub fn definition(&self) -> (definition: ToolDefinition)
        ensures
            definition.name@ == "generate_image"@,
            definition.description@ == "Generate an image for the user"@,
            definition.parameters@ == IMAGE_TOOL_PARAMETERS@,
    {
        ToolDefinition {
            name: "generate_image".to_owned(),
            description: "Generate an image for the user".to_owned(),
            parameters: IMAGE_TOOL_PARAMETERS.to_owned(),
        }
    }

    /// The directory in which generated images are kept.
    pub fn image_dir() -> (dir: &'static str)
        ensures
            dir@ == "static/temp/images"@,
    {
        "static/temp/images"
    }

    /// Where the image generated at `now`, in milliseconds, is kept.
    pub fn image_path(now: u128) -> (path: String)
        ensures
            path@ == "static/temp/images/"@ + decimal(now as nat) + ".png"@,
    {
        let mut path = "static/temp/images/".to_owned();
        push_decimal(&mut path, now);
        path.append(".png");
        path
    }

    /// The address under which the file at `path` is served; this is what
    /// the tool returns.
    pub fn image_url(path: &str) -> (url: String)
        ensures
            url@ == "/"@ + path@,
    {
        let mut url = "/".to_owned();
        url.append(path);
        url
    }
}

/// The tools that the dispatcher knows.
#[derive(Clone, Copy, Debug, PartialEq, Eq, Structural)]
pub enum ToolKind {
    GenerateImage,
}

impl ToolKind {
    /// The name by which the model calls the tool.
    pub open spec fn spec_name(self) -> Seq<char> {
        match self {
            ToolKind::GenerateImage => "generate_image"@,
        }
    }

    /// The tool called `name`, if there is one.
    pub open spec fn named(name: Seq<char>) -> Option<ToolKind> {
        if name == ToolKind::GenerateImage.spec_name() {
            Some(ToolKind::GenerateImage)
        } else {
            None
        }
    }

    /// How the tool's result is shown in the transcript.
    pub open spec fn rendered(self, value: Seq<char>) -> Seq<char> {
        match self {
            ToolKind::GenerateImage => "<img src=\""@ + value + "\"/>"@,
        }
    }

    /// The tool called `name`, if there is one.
    pub fn from_name(name: &str) -> (kind: Option<ToolKind>)
        ensures
            kind == ToolKind::named(name@),
    {
        if name.to_owned() == GenerateImage::name().to_owned() {
            Some(ToolKind::GenerateImage)
        } else {
            None
        }
    }

    /// The name by which the model calls the tool.
    pub fn name(&self) -> (name: &'static str)
        ensures
            name@ == self.spec_name(),
    {
        match self {
            ToolKind::GenerateImage => GenerateImage::name(),
        }
    }

    /// Turns the tool's result into what the transcript shows.
    pub fn render(&self, value: &str) -> (shown: String)
        ensures
            shown@ == self.rendered(value@),
    {
        match self {
            ToolKind::GenerateImage => {
                let mut shown = "<img src=\"".to_owned();
                shown.append(value);
                shown.append("\"/>");
                shown
            },
        }
    }
}

/// The error with which `serde_json` rejects a text.
#[verifier::external_type_specification]
#[verifier::external_body]
pub struct ExJsonError(serde_json::Error);

/// The string that `text` denotes as a JSON document, where `text` is a JSON
/// string and nothing else; `None` for every other text.
pub uninterp spec fn json_string_value(text: Seq<char>) -> Option<Seq<char>>;

/// Calls `serde_json::from_str::<String>`. The result depends on `text`
/// alone: it is `Ok` with the decoded string exactly when `text` is one JSON
/// string, with nothing but white space around it.
#[verifier::external_body]
fn parse_json_string(text: &str) -> (parsed: Result<String, serde_json::Error>)
    ensures
        parsed is Ok <==> json_string_value(text@) is Some,
        parsed matches Ok(value) ==> json_string_value(text@) == Some(value@),
{
    serde_json::from_str::<String>(text)
}

/// The string that `text` denotes as JSON, if it denotes one.
pub fn decode_json_string(text: &str) -> (decoded: Option<String>)
    ensures
        text_view(decoded) == json_string_value(text@),
{
    match parse_json_string(text) {
        Ok(value) => Some(value),
        Err(_) => None,
    }
}

/// A tool call whose result is still to come: the kind of tool, and the index
/// of the empty message that waits for the result. It is used up when the
/// result is written, so a message is patched at most once.
#[derive(Debug)]
pub struct PendingToolCall {
    index: usize,
    kind: ToolKind,
}

impl PendingToolCall {
    /// The index of the message that waits for the result.
    pub closed spec fn target(&self) -> usize {
        self.index
    }

    /// The tool that was called.
    pub closed spec fn tool(&self) -> ToolKind {
        self.kind
    }

    /// The index of the message that waits for the result.
    pub fn index(&self) -> (index: usize)
        ensures
            index == self.target(),
    {
        self.index
    }

    /// The tool that was called.
    pub fn kind(&self) -> (kind: ToolKind)
        ensures
            kind == self.tool(),
    {
        self.kind
    }
}

/// Whether the result `value` cannot be written: there is a result, and the
/// message that waits for it is not in the transcript of `state`.
pub open spec fn misplaced(state: PromptStateView, call: PendingToolCall, value: Option<Seq<char>>)
    -> bool {
    value is Some && call.target() >= state.transcript.len()
}

/// The state after the tool behind `call` has ended with `value`, or has
/// failed where `value` is `None`: the result, rendered, is the text of the
/// message that waited for it, and has been published as an update of that
/// message. A failure, or a result that cannot be written, leaves the state
/// as it is.
pub open spec fn resolved(state: PromptStateView, call: PendingToolCall, value: Option<Seq<char>>)
    -> PromptStateView {
    match value {
        Some(value) if call.target() < state.transcript.len() => state.updated(
            call.target(),
            call.tool().rendered(value),
        ),
        _ => state,
    }
}

/// What the tool's raw output denotes: the string inside, where the tool ran
/// and its output is a JSON string.
pub open spec fn output_value(output: Option<Seq<char>>) -> Option<Seq<char>> {
    match output {
        Some(text) => json_string_value(text),
        None => None,
    }
}

/// Recognises tool calls, makes room for their results, and writes the
/// results in.
pub struct ToolDispatcher {}

impl ToolDispatcher {
    /// If `name` is a known tool, appends an empty assistant message for its
    /// result and returns the pending call. An unknown name changes nothing.
    pub fn dispatch(state: &mut PromptState, name: &str) -> (call: Option<PendingToolCall>)
        requires
            old(state).wf(),
        ensures
            final(state).wf(),
            ToolKind::named(name@) matches Some(kind) ==> ({
                &&& call matches Some(pending) && pending.tool() == kind && pending.target()
                    == old(state)@.transcript.len()
                &&& final(state)@ == old(state)@.appended(Message::placeholder_view())
            }),
            ToolKind::named(name@) is None ==> ({
                &&& call is None
                &&& final(state)@ == old(state)@
            }),
    {
        match ToolKind::from_name(name) {
            None => None,
            Some(kind) => {
                let index = state.send_message(Message::placeholder());
                Some(PendingToolCall { index, kind })
            },
        }
    }

    /// Writes the result `value` of the tool into the message that waits for
    /// it and publishes the update. Where the tool failed (`None`), the
    /// message stays empty.
    pub fn resolve(
        state: &mut PromptState,
        call: PendingToolCall,
        value: Option<String>,
    ) -> (outcome: Result<(), StoreError>)
        requires
            old(state).wf(),
        ensures
            final(state).wf(),
            final(state)@ == resolved(old(state)@, call, text_view(value)),
            misplaced(old(state)@, call, text_view(value)) ==> outcome == Err::<(), StoreError>(
                StoreError::InvalidIndex,
            ),
            !misplaced(old(state)@, call, text_view(value)) ==> outcome is Ok,
    {
        match value {
            None => Ok(()),
            Some(text) => state.update_message(call.index, call.kind.render(text.as_str())),
        }
    }

    /// Takes what the tool returned, or `None` where it failed. The output of
    /// a tool is a JSON string; the string inside is what gets written. An
    /// output that is no JSON string counts as a failure of the tool.
    pub fn complete(
        state: &mut PromptState,
        call: PendingToolCall,
        output: Option<String>,
    ) -> (outcome: Result<(), StoreError>)
        requires
            old(state).wf(),
        ensures
            final(state).wf(),
            final(state)@ == resolved(old(state)@, call, output_value(text_view(output))),
            misplaced(old(state)@, call, output_value(text_view(output))) ==> outcome == Err::<
                (),
                StoreError,
            >(StoreError::InvalidIndex),
            !misplaced(old(state)@, call, output_value(text_view(output))) ==> outcome is Ok,
    {
        let value = match output {
            None => None,
            Some(text) => decode_json_string(text.as_str()),
        };
        ToolDispatcher::resolve(state, call, value)
    }
}

} // verus!
