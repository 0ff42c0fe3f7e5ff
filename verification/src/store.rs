//! The conversation transcript: an ordered list of messages that only grows,
//! except that the text of an existing entry may be replaced in place.

use vstd::prelude::*;
use crate::message::{transcript_of, Message, MessageView};

verus! {

/// Why an operation on the transcript failed.
#[derive(Clone, Copy, Debug, PartialEq, Eq, Structural)]
pub enum StoreError {
    /// No message has the given index.
    InvalidIndex,
}

/// Owner of the transcript. A message's index is its position, assigned when
/// it is appended and never changed afterwards.
pub struct ConversationStore {
    messages: Vec<Message>,
}

impl View for ConversationStore {
    type V = Seq<MessageView>;

    closed spec fn view(&self) -> Seq<MessageView> {
        transcript_of(self.messages@)
    }
}

/// `transcript` with the text of entry `index` replaced by `text`; the role of
/// the entry and everything else stay as they are.
pub open spec fn with_content(transcript: Seq<MessageView>, index: int, text: Seq<char>) -> Seq<
    MessageView,
>
    recommends
        0 <= index < transcript.len(),
{
    transcript.update(index, MessageView { role: transcript[index].role, content: text })
}

/// `transcript` with `chunk` added to the end of the text of entry `index`.
pub open spec fn with_appended(transcript: Seq<MessageView>, index: int, chunk: Seq<char>) -> Seq<
    MessageView,
>
    recommends
        0 <= index < transcript.len(),
{
    with_content(transcript, index, transcript[index].content + chunk)
}

impl ConversationStore {
    /// An empty transcript.
    pub fn new() -> (store: ConversationStore)
        ensures
            store@ == Seq::<MessageView>::empty(),
    {
        let store = ConversationStore { messages: Vec::new() };
        assert(store@ =~= Seq::<MessageView>::empty());
        store
    }

    /// The number of messages.
    pub fn len(&self) -> (len: usize)
        ensures
            len == self@.len(),
    {
        self.messages.len()
    }

    /// Adds `message` at the end and returns the index it was given.
    pub fn append(&mut self, message: Message) -> (index: usize)
        ensures
            index == old(self)@.len(),
            final(self)@ == old(self)@.push(message@),
    {
        let index = self.messages.len();
        self.messages.push(message);
        assert(self@ =~= old(self)@.push(message@));
        index
    }

    /// Overwrites the text of the message at `index`, keeping its role.
    pub fn replace_content(&mut self, index: usize, new_text: String) -> (outcome: Result<
        (),
        StoreError,
    >)
        ensures
            index < old(self)@.len() ==> ({
                &&& outcome is Ok
                &&& final(self)@ == with_content(old(self)@, index as int, new_text@)
            }),
            index >= old(self)@.len() ==> ({
                &&& outcome == Err::<(), StoreError>(StoreError::InvalidIndex)
                &&& final(self)@ == old(self)@
            }),
    {
        if index >= self.messages.len() {
            return Err(StoreError::InvalidIndex);
        }
        let replaced = self.messages[index].with_content(new_text);
        self.messages.set(index, replaced);
        assert(self@ =~= with_content(old(self)@, index as int, new_text@));
        Ok(())
    }

    /// Adds `chunk` to the end of the text of the message at `index`.
    pub fn extend_content(&mut self, index: usize, chunk: &str) -> (outcome: Result<(), StoreError>)
        ensures
            index < old(self)@.len() ==> ({
                &&& outcome is Ok
                &&& final(self)@ == with_appended(old(self)@, index as int, chunk@)
            }),
            index >= old(self)@.len() ==> ({
                &&& outcome == Err::<(), StoreError>(StoreError::InvalidIndex)
                &&& final(self)@ == old(self)@
            }),
    {
        if index >= self.messages.len() {
            return Err(StoreError::InvalidIndex);
        }
        let mut text = self.messages[index].content().to_owned();
        text.append(chunk);
        self.replace_content(index, text)
    }

    /// A copy of the message at `index`, if there is one.
    pub fn get(&self, index: usize) -> (found: Option<Message>)
        ensures
            index < self@.len() ==> (found matches Some(message) && message@
                == self@[index as int]),
            index >= self@.len() ==> found is None,
    {
        if index < self.messages.len() {
            Some(self.messages[index].clone())
        } else {
            None
        }
    }

    /// A copy of the whole transcript as it is now.
    pub fn snapshot(&self) -> (copy: Vec<Message>)
        ensures
            transcript_of(copy@) == self@,
    {
        let mut copy: Vec<Message> = Vec::new();
        let mut i: usize = 0;
        while i < self.messages.len()
            invariant
                i <= self.messages.len(),
                transcript_of(copy@) == self@.take(i as int),
            decreases self.messages.len() - i,
        {
            let ghost before = copy@;
            let message = self.messages[i].clone();
            copy.push(message);
            assert(transcript_of(copy@) =~= transcript_of(before).push(message@));
            assert(self@.take(i as int + 1) =~= self@.take(i as int).push(self@[i as int]));
            i += 1;
        }
        assert(self@.take(i as int) =~= self@);
        copy
    }
}

/// The transcript after `messages` were appended to `transcript` one by one.
pub open spec fn append_all(transcript: Seq<MessageView>, messages: Seq<MessageView>) -> Seq<
    MessageView,
>
    decreases messages.len(),
{
    if messages.len() == 0 {
        transcript
    } else {
        append_all(transcript, messages.drop_last()).push(messages.last())
    }
}

/// The index that the append of `messages[k]` returns, where `messages` are
/// appended to `transcript` one by one: the length of the transcript at that
/// moment.
pub open spec fn returned_index(transcript: Seq<MessageView>, messages: Seq<MessageView>, k: int)
    -> nat
    recommends
        0 <= k < messages.len(),
{
    append_all(transcript, messages.take(k)).len()
}

/// Appending one by one is appending all at once.
pub proof fn lemma_append_all(transcript: Seq<MessageView>, messages: Seq<MessageView>)
    ensures
        append_all(transcript, messages) == transcript + messages,
    decreases messages.len(),
{
    if messages.len() > 0 {
        lemma_append_all(transcript, messages.drop_last());
        assert(messages.drop_last().push(messages.last()) == messages);
    }
    assert(append_all(transcript, messages) =~= transcript + messages);
}

/// In any series of appends to an empty transcript, the indices returned are
/// 0, 1, 2, ... in the order of the calls, each message is found at the index
/// that its append returned, and no index is skipped or given twice.
pub proof fn lemma_indices_are_contiguous(messages: Seq<MessageView>, k: int)
    requires
        0 <= k < messages.len(),
    ensures
        returned_index(Seq::empty(), messages, k) == k,
        append_all(Seq::empty(), messages).len() == messages.len(),
        append_all(Seq::empty(), messages)[k] == messages[k],
{
    lemma_append_all(Seq::empty(), messages.take(k));
    lemma_append_all(Seq::empty(), messages);
}

/// Replacing the text of a message changes neither its role nor its index,
/// nor anything about any other message, nor the length of the transcript.
pub proof fn lemma_replace_keeps_role_and_index(
    transcript: Seq<MessageView>,
    index: int,
    text: Seq<char>,
)
    requires
        0 <= index < transcript.len(),
    ensures
        with_content(transcript, index, text).len() == transcript.len(),
        with_content(transcript, index, text)[index].role == transcript[index].role,
        with_content(transcript, index, text)[index].content == text,
        forall|other: int|
            0 <= other < transcript.len() && other != index ==> with_content(
                transcript,
                index,
                text,
            )[other] == transcript[other],
{
}

/// Two snapshots of the same store, with no change between them, are equal
/// message by message.
pub proof fn lemma_snapshot_is_repeatable(
    store: ConversationStore,
    first: Seq<Message>,
    second: Seq<Message>,
)
    requires
        transcript_of(first) == store@,
        transcript_of(second) == store@,
    ensures
        first.len() == second.len(),
        forall|i: int| 0 <= i < first.len() ==> first[i]@ == second[i]@,
{
    assert(transcript_of(first).len() == first.len());
    assert(transcript_of(second).len() == second.len());
    assert forall|i: int| 0 <= i < first.len() implies first[i]@ == second[i]@ by {
        assert(transcript_of(first)[i] == first[i]@);
        assert(transcript_of(second)[i] == second[i]@);
    }
}

} // verus!
