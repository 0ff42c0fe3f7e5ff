//! Transcript entries: a role and exactly one span of text.

use vstd::prelude::*;

verus! {

/// Who wrote a transcript entry.
#[derive(Clone, Copy, Debug, PartialEq, Eq, Structural)]
pub enum Role {
    User,
    Assistant,
}

/// Mathematical value of a [`Message`].
pub struct MessageView {
    pub role: Role,
    pub content: Seq<char>,
}

/// One entry of the transcript. Its position in the transcript is its index;
/// the entry itself carries only the role and the text.
#[derive(Debug, PartialEq, Eq)]
pub struct Message {
    role: Role,
    content: String,
}

impl View for Message {
    type V = MessageView;

    closed spec fn view(&self) -> MessageView {
        MessageView { role: self.role, content: self.content@ }
    }
}

/// The mathematical value of a list of messages, entry by entry.
pub open spec fn transcript_of(messages: Seq<Message>) -> Seq<MessageView> {
    messages.map_values(|message: Message| message@)
}

/// One piece of content as it arrives from outside: either a span of text or
/// something else (an image, a tool result, ...), of which only the kind
/// matters.
#[derive(Debug, PartialEq, Eq)]
pub enum ContentPart {
    Text(String),
    Other,
}

/// Why a message was rejected at the boundary.
#[derive(Clone, Copy, Debug, PartialEq, Eq, Structural)]
pub enum ContentError {
    /// The content was not exactly one span of text.
    NotSingleText,
}

/// Whether `parts` is exactly one span of text.
pub open spec fn is_single_text(parts: Seq<ContentPart>) -> bool {
    parts.len() == 1 && parts[0] is Text
}

impl Clone for Message {
    fn clone(&self) -> (copy: Self)
        ensures
            copy@ == self@,
    {
        Message { role: self.role, content: self.content.clone() }
    }
}

impl Message {
    /// The value of an assistant message with no text yet.
    pub open spec fn placeholder_view() -> MessageView {
        MessageView { role: Role::Assistant, content: Seq::empty() }
    }

    /// The value of a user message that says `text`.
    pub open spec fn user_view(text: Seq<char>) -> MessageView {
        MessageView { role: Role::User, content: text }
    }

    /// A message written by the user.
    pub fn user(text: String) -> (message: Message)
        ensures
            message@ == Message::user_view(text@),
    {
        Message { role: Role::User, content: text }
    }

    /// A message written by the assistant.
    pub fn assistant(text: String) -> (message: Message)
        ensures
            message@ == (MessageView { role: Role::Assistant, content: text@ }),
    {
        Message { role: Role::Assistant, content: text }
    }

    /// An assistant message with no text yet, to be filled in later.
    pub fn placeholder() -> (message: Message)
        ensures
            message@ == Message::placeholder_view(),
    {
        Message { role: Role::Assistant, content: String::new() }
    }

    /// Accepts content only if it is exactly one span of text, and never
    /// extracts text from anything else.
    pub fn from_parts(role: Role, parts: Vec<ContentPart>) -> (outcome: Result<
        Message,
        ContentError,
    >)
        ensures
            is_single_text(parts@) ==> (outcome matches Ok(message) && message@ == (MessageView {
                role,
                content: parts@[0]->Text_0@,
            })),
            !is_single_text(parts@) ==> (outcome matches Err(ContentError::NotSingleText)),
    {
        let mut parts = parts;
        if parts.len() != 1 {
            return Err(ContentError::NotSingleText);
        }
        match parts.pop() {
            Some(ContentPart::Text(text)) => Ok(Message { role, content: text }),
            _ => Err(ContentError::NotSingleText),
        }
    }

    /// Who wrote the message.
    pub fn role(&self) -> (role: Role)
        ensures
            role == self@.role,
    {
        self.role
    }

    /// The text of the message.
    pub fn content(&self) -> (content: &str)
        ensures
            content@ == self@.content,
    {
        self.content.as_str()
    }

    /// The same role with `text` as the whole content.
    pub fn with_content(&self, text: String) -> (message: Message)
        ensures
            message@ == (MessageView { role: self@.role, content: text@ }),
    {
        Message { role: self.role, content: text }
    }
}

} // verus!
