//! What each page or fragment shows. These types hold the data only; turning
//! them into markup is left to whoever renders them.

use vstd::prelude::*;
use crate::message::Message;

verus! {

/// The full conversation history.
#[derive(Debug, PartialEq, Eq)]
pub struct ChatHistoryTemplate {
    pub messages: Vec<Message>,
}

/// A message shown in the chat history.
#[derive(Debug, PartialEq, Eq)]
pub struct MessageTemplate {
    /// The index of the message, which also names the events that update it.
    pub index: usize,
    pub message: Message,
}

/// The recording prompt.
#[derive(Debug, PartialEq, Eq)]
pub struct RecordingTemplate {}

/// The normal prompt, with a default value filled in.
#[derive(Debug, PartialEq, Eq)]
pub struct FilledPromptTemplate {
    pub prompt: String,
}

/// The whole site index.
#[derive(Debug, PartialEq, Eq)]
pub struct IndexTemplate {
    /// The chat history at the time of the request.
    pub chat_history: ChatHistoryTemplate,
}

} // verus!
