//! The named updates that subscribers receive.

use vstd::prelude::*;
use crate::message::{transcript_of, MessageView};
use crate::templates::{ChatHistoryTemplate, MessageTemplate};
use crate::text::{decimal, push_decimal};

verus! {

/// One update for the subscriber. The name of an event tells the subscriber
/// what to do with its payload.
#[derive(Debug, PartialEq, Eq)]
pub enum Event {
    /// A new transcript entry was created at the index given.
    NewMessage(MessageTemplate),
    /// The text of entry `index` grew by `span`.
    UpdateMessage { index: usize, span: String },
    /// The whole transcript, replacing whatever the subscriber shows.
    ChatHistory(ChatHistoryTemplate),
    /// Speech for some span of text is on its way.
    QueueAudio { generation_timestamp: u128 },
    /// The speech announced under the same timestamp.
    PlayAudio { encoded_audio: String, generation_timestamp: u128 },
}

/// Mathematical value of an [`Event`].
pub enum EventView {
    NewMessage { index: usize, message: MessageView },
    UpdateMessage { index: usize, span: Seq<char> },
    ChatHistory { messages: Seq<MessageView> },
    QueueAudio { generation_timestamp: u128 },
    PlayAudio { encoded_audio: Seq<char>, generation_timestamp: u128 },
}

impl EventView {
    /// The name under which the event is published.
    pub open spec fn name(self) -> Seq<char> {
        match self {
            EventView::NewMessage { .. } => "new_message"@,
            EventView::UpdateMessage { index, .. } => "update_message#"@ + decimal(index as nat),
            EventView::ChatHistory { .. } => "chat_history"@,
            EventView::QueueAudio { .. } => "queue_audio"@,
            EventView::PlayAudio { .. } => "play_audio"@,
        }
    }

    /// The payload as text, for the events whose payload needs no template.
    pub open spec fn data(self) -> Option<Seq<char>> {
        match self {
            EventView::NewMessage { .. } => None,
            EventView::UpdateMessage { span, .. } => Some(
                "<span class=\"text\">"@ + span + "</span>"@,
            ),
            EventView::ChatHistory { .. } => None,
            EventView::QueueAudio { generation_timestamp } => Some(
                decimal(generation_timestamp as nat),
            ),
            EventView::PlayAudio { encoded_audio, generation_timestamp } => Some(
                "{\"encoded_audio\":\""@ + encoded_audio + "\",\"generation_timestamp\":"@
                    + decimal(generation_timestamp as nat) + "}"@,
            ),
        }
    }
}

impl View for Event {
    type V = EventView;

    open spec fn view(&self) -> EventView {
        match *self {
            Event::NewMessage(template) => EventView::NewMessage {
                index: template.index,
                message: template.message@,
            },
            Event::UpdateMessage { index, span } => EventView::UpdateMessage { index, span: span@ },
            Event::ChatHistory(template) => EventView::ChatHistory {
                messages: transcript_of(template.messages@),
            },
            Event::QueueAudio { generation_timestamp } => EventView::QueueAudio {
                generation_timestamp,
            },
            Event::PlayAudio { encoded_audio, generation_timestamp } => EventView::PlayAudio {
                encoded_audio: encoded_audio@,
                generation_timestamp,
            },
        }
    }
}

impl Event {
    /// The name under which the event is published.
    pub fn name(&self) -> (name: String)
        ensures
            name@ == self@.name(),
    {
        match self {
            Event::NewMessage(_) => "new_message".to_owned(),
            Event::UpdateMessage { index, .. } => {
                let mut name = "update_message#".to_owned();
                push_decimal(&mut name, *index as u128);
                name
            },
            Event::ChatHistory(_) => "chat_history".to_owned(),
            Event::QueueAudio { .. } => "queue_audio".to_owned(),
            Event::PlayAudio { .. } => "play_audio".to_owned(),
        }
    }

    /// The payload as text, for the events whose payload needs no template.
    pub fn data(&self) -> (data: Option<String>)
        ensures
            data is Some <==> self@.data() is Some,
            data matches Some(text) ==> self@.data() == Some(text@),
    {
        match self {
            Event::NewMessage(_) => None,
            Event::UpdateMessage { span, .. } => {
                let mut text = "<span class=\"text\">".to_owned();
                text.append(span.as_str());
                text.append("</span>");
                Some(text)
            },
            Event::ChatHistory(_) => None,
            Event::QueueAudio { generation_timestamp } => {
                let mut text = String::new();
                push_decimal(&mut text, *generation_timestamp);
                assert(text@ =~= decimal(*generation_timestamp as nat));
                Some(text)
            },
            Event::PlayAudio { encoded_audio, generation_timestamp } => {
                let mut text = "{\"encoded_audio\":\"".to_owned();
                text.append(encoded_audio.as_str());
                text.append("\",\"generation_timestamp\":");
                push_decimal(&mut text, *generation_timestamp);
                text.append("}");
                Some(text)
            },
        }
    }
}

} // verus!
