//! The state that every part of a reply shares: the transcript, the
//! subscriber's channel, and the speech clips that were announced but have
//! not arrived yet.

use vstd::prelude::*;
use tokio::sync::mpsc::Sender;
use crate::broadcaster::EventBroadcaster;
use crate::encoding::{base64, encode};
use crate::event::{Event, EventView};
use crate::message::{transcript_of, Message, MessageView};
use crate::store::{with_appended, ConversationStore, StoreError};
use crate::templates::{ChatHistoryTemplate, MessageTemplate};

verus! {

/// Why a speech event was not published.
#[derive(Clone, Copy, Debug, PartialEq, Eq, Structural)]
pub enum AudioError {
    /// The timestamp is not later than that of the clip announced last.
    StaleTimestamp,
    /// No clip with this timestamp is waiting: it was never announced, or it
    /// has arrived already.
    NotQueued,
}

/// The timestamp of an announcement of speech; `None` for any other event.
pub open spec fn queue_time(event: EventView) -> Option<u128> {
    match event {
        EventView::QueueAudio { generation_timestamp } => Some(generation_timestamp),
        _ => None,
    }
}

/// The timestamp of a speech clip; `None` for any other event.
pub open spec fn play_time(event: EventView) -> Option<u128> {
    match event {
        EventView::PlayAudio { generation_timestamp, .. } => Some(generation_timestamp),
        _ => None,
    }
}

/// Whether an announcement under the timestamp `t` is among the first `end`
/// events of `log`.
pub open spec fn announced_before(log: Seq<EventView>, end: int, t: u128) -> bool {
    exists|i: int| 0 <= i < end && i < log.len() && #[trigger] queue_time(log[i]) == Some(t)
}

/// Whether a clip under the timestamp `t` is in `log`.
pub open spec fn played(log: Seq<EventView>, t: u128) -> bool {
    exists|j: int| 0 <= j < log.len() && #[trigger] play_time(log[j]) == Some(t)
}

/// Every speech clip in `log` comes after the announcement that carries its
/// timestamp.
pub open spec fn announced_first(log: Seq<EventView>) -> bool {
    forall|j: int|
        0 <= j < log.len() && (#[trigger] play_time(log[j])) is Some ==> announced_before(
            log,
            j,
            play_time(log[j])->0,
        )
}

/// The announcements in `log` carry strictly increasing timestamps.
pub open spec fn queue_times_increase(log: Seq<EventView>) -> bool {
    forall|i: int, j: int|
        0 <= i < j < log.len() && (#[trigger] queue_time(log[i])) is Some && (#[trigger] queue_time(
            log[j],
        )) is Some ==> queue_time(log[i])->0 < queue_time(log[j])->0
}

/// No two speech clips in `log` carry the same timestamp.
pub open spec fn played_once(log: Seq<EventView>) -> bool {
    forall|i: int, j: int|
        0 <= i < j < log.len() && (#[trigger] play_time(log[i])) is Some ==> play_time(log[i])
            != #[trigger] play_time(log[j])
}

/// No announcement in `log` carries a timestamp later than `latest`.
pub open spec fn announced_until(log: Seq<EventView>, latest: Option<u128>) -> bool {
    forall|i: int|
        0 <= i < log.len() && (#[trigger] queue_time(log[i])) is Some ==> latest is Some
            && queue_time(log[i])->0 <= latest->0
}

/// The timestamps in `pending` are those of clips that were announced in
/// `log` and have not been published in it.
pub open spec fn waiting(log: Seq<EventView>, pending: Set<u128>) -> bool {
    forall|t: u128| #[trigger]
        pending.contains(t) ==> announced_before(log, log.len() as int, t) && !played(log, t)
}

/// Mathematical value of a [`PromptState`].
pub struct PromptStateView {
    /// The transcript, in order.
    pub transcript: Seq<MessageView>,
    /// Every event published so far, in order, whether or not a subscriber
    /// was there to take it.
    pub published: Seq<EventView>,
    /// The channel attached now, if any.
    pub subscriber: Option<Sender<Event>>,
    /// The timestamps of the clips that were announced and have not arrived.
    pub pending_audio: Set<u128>,
    /// The timestamp of the clip announced last.
    pub latest_audio: Option<u128>,
}

impl PromptStateView {
    /// An empty transcript, nobody attached, nothing published.
    pub open spec fn empty() -> PromptStateView {
        PromptStateView {
            transcript: Seq::empty(),
            published: Seq::empty(),
            subscriber: None,
            pending_audio: Set::empty(),
            latest_audio: None,
        }
    }

    /// What holds of the speech events at all times.
    pub open spec fn consistent(self) -> bool {
        &&& announced_first(self.published)
        &&& queue_times_increase(self.published)
        &&& played_once(self.published)
        &&& announced_until(self.published, self.latest_audio)
        &&& waiting(self.published, self.pending_audio)
    }

    /// Whether a clip announced at `t` would keep the timestamps increasing.
    pub open spec fn accepts_timestamp(self, t: u128) -> bool {
        self.latest_audio matches Some(latest) ==> latest < t
    }

    /// The timestamp under which speech dispatched at `clock` is announced:
    /// the reading of the clock, or, where the clock has not moved past the
    /// last announcement, the moment after that announcement. `None` only
    /// where no later moment exists.
    pub open spec fn next_timestamp(self, clock: u128) -> Option<u128> {
        match self.latest_audio {
            Some(latest) if clock <= latest => if latest < u128::MAX {
                Some((latest + 1) as u128)
            } else {
                None
            },
            _ => Some(clock),
        }
    }

    /// The state after `message` was appended and announced.
    pub open spec fn appended(self, message: MessageView) -> PromptStateView {
        PromptStateView {
            transcript: self.transcript.push(message),
            published: self.published.push(
                EventView::NewMessage { index: self.transcript.len() as usize, message },
            ),
            ..self
        }
    }

    /// The state after `chunk` was added to the text of entry `index`.
    pub open spec fn updated(self, index: usize, chunk: Seq<char>) -> PromptStateView
        recommends
            index < self.transcript.len(),
    {
        PromptStateView {
            transcript: with_appended(self.transcript, index as int, chunk),
            published: self.published.push(EventView::UpdateMessage { index, span: chunk }),
            ..self
        }
    }

    /// The state after the whole transcript was published.
    pub open spec fn history_sent(self) -> PromptStateView {
        PromptStateView {
            published: self.published.push(EventView::ChatHistory { messages: self.transcript }),
            ..self
        }
    }

    /// The state after speech was announced under the timestamp `t`.
    pub open spec fn audio_queued(self, t: u128) -> PromptStateView {
        PromptStateView {
            published: self.published.push(EventView::QueueAudio { generation_timestamp: t }),
            pending_audio: self.pending_audio.insert(t),
            latest_audio: Some(t),
            ..self
        }
    }

    /// The state after the clip announced under `t` was published.
    pub open spec fn audio_sent(self, t: u128, data: Seq<u8>) -> PromptStateView {
        PromptStateView {
            published: self.published.push(
                EventView::PlayAudio { encoded_audio: base64(data), generation_timestamp: t },
            ),
            pending_audio: self.pending_audio.remove(t),
            ..self
        }
    }

    /// The state after the clip announced under `t` was given up.
    pub open spec fn audio_abandoned(self, t: u128) -> PromptStateView {
        PromptStateView { pending_audio: self.pending_audio.remove(t), ..self }
    }
}

/// An announcement among the first events of a log is still among them when
/// the log has grown.
proof fn lemma_announced_before_push(log: Seq<EventView>, event: EventView, end: int, t: u128)
    requires
        announced_before(log, end, t),
    ensures
        announced_before(log.push(event), end, t),
{
    let i = choose|i: int|
        0 <= i < end && i < log.len() && #[trigger] queue_time(log[i]) == Some(t);
    assert(queue_time(log.push(event)[i]) == Some(t));
}

/// One more event leaves the speech events consistent, provided that an
/// announcement carries a timestamp later than all before it and joins the
/// waiting clips, that a clip is one of the waiting and leaves them, and
/// that any other event leaves the waiting clips alone.
proof fn lemma_event_keeps_consistency(
    state: PromptStateView,
    event: EventView,
    next: PromptStateView,
)
    requires
        state.consistent(),
        next.published == state.published.push(event),
        queue_time(event) matches Some(t) ==> ({
            &&& state.accepts_timestamp(t)
            &&& next.pending_audio == state.pending_audio.insert(t)
            &&& next.latest_audio == Some(t)
        }),
        play_time(event) matches Some(t) ==> ({
            &&& state.pending_audio.contains(t)
            &&& next.pending_audio == state.pending_audio.remove(t)
            &&& next.latest_audio == state.latest_audio
        }),
        queue_time(event) is None && play_time(event) is None ==> ({
            &&& next.pending_audio == state.pending_audio
            &&& next.latest_audio == state.latest_audio
        }),
    ensures
        next.consistent(),
{
    let log = state.published;
    let after = next.published;
    let last = log.len() as int;
    assert(after[last] == event);
    assert forall|j: int| 0 <= j < last implies after[j] == log[j] by {}
    assert forall|j: int|
        0 <= j < after.len() && (#[trigger] play_time(after[j])) is Some implies announced_before(
        after,
        j,
        play_time(after[j])->0,
    ) by {
        if j < last {
            assert(play_time(log[j]) is Some);
        }
        lemma_announced_before_push(log, event, j, play_time(after[j])->0);
    }
    assert forall|i: int, j: int|
        0 <= i < j < after.len() && (#[trigger] queue_time(after[i])) is Some && (
        #[trigger] queue_time(after[j])) is Some implies queue_time(after[i])->0 < queue_time(
        after[j],
    )->0 by {
        assert(queue_time(log[i]) is Some);
        if j < last {
            assert(queue_time(log[j]) is Some);
        }
    }
    assert forall|i: int, j: int|
        0 <= i < j < after.len() && (#[trigger] play_time(after[i])) is Some implies play_time(
        after[i],
    ) != #[trigger] play_time(after[j]) by {
        assert(play_time(log[i]) is Some);
        if j < last {
            assert(play_time(log[i]) != play_time(log[j]));
        }
    }
    assert forall|i: int|
        0 <= i < after.len() && (#[trigger] queue_time(after[i])) is Some implies next.latest_audio
        is Some && queue_time(after[i])->0 <= next.latest_audio->0 by {
        if i < last {
            assert(queue_time(log[i]) is Some);
        }
    }
    assert forall|t: u128| #[trigger] next.pending_audio.contains(t) implies announced_before(
        after,
        after.len() as int,
        t,
    ) && !played(after, t) by {
        if queue_time(event) == Some(t) {
            assert(queue_time(after[last]) == Some(t));
        } else {
            assert(state.pending_audio.contains(t));
            lemma_announced_before_push(log, event, last, t);
        }
        if played(after, t) {
            let j = choose|j: int|
                0 <= j < after.len() && #[trigger] play_time(after[j]) == Some(t);
            if j < last {
                assert(play_time(log[j]) == Some(t));
                if queue_time(event) == Some(t) {
                    let i = choose|i: int|
                        0 <= i < j && i < log.len() && #[trigger] queue_time(log[i]) == Some(t);
                    assert(queue_time(log[i]) is Some);
                }
            }
        }
    }
}

/// An event that is neither an announcement of speech nor a clip leaves the
/// speech events consistent.
pub proof fn lemma_other_event_keeps_consistency(state: PromptStateView, event: EventView)
    requires
        state.consistent(),
        queue_time(event) is None,
        play_time(event) is None,
    ensures
        (PromptStateView { published: state.published.push(event), ..state }).consistent(),
{
    lemma_event_keeps_consistency(
        state,
        event,
        PromptStateView { published: state.published.push(event), ..state },
    );
}

/// Announcing speech under a timestamp later than every earlier one leaves
/// the speech events consistent.
pub proof fn lemma_queue_keeps_consistency(state: PromptStateView, t: u128)
    requires
        state.consistent(),
        state.accepts_timestamp(t),
    ensures
        state.audio_queued(t).consistent(),
{
    lemma_event_keeps_consistency(
        state,
        EventView::QueueAudio { generation_timestamp: t },
        state.audio_queued(t),
    );
}

/// Publishing the clip for a timestamp that is waiting leaves the speech
/// events consistent.
pub proof fn lemma_send_keeps_consistency(state: PromptStateView, t: u128, data: Seq<u8>)
    requires
        state.consistent(),
        state.pending_audio.contains(t),
    ensures
        state.audio_sent(t, data).consistent(),
{
    lemma_event_keeps_consistency(
        state,
        EventView::PlayAudio { encoded_audio: base64(data), generation_timestamp: t },
        state.audio_sent(t, data),
    );
}

/// Giving up a waiting clip leaves the speech events consistent.
pub proof fn lemma_abandon_keeps_consistency(state: PromptStateView, t: u128)
    requires
        state.consistent(),
    ensures
        state.audio_abandoned(t).consistent(),
{
    assert forall|u: u128| #[trigger]
        state.audio_abandoned(t).pending_audio.contains(u) implies state.pending_audio.contains(
        u,
    ) by {}
}

/// In every consistent state, a speech clip is published strictly after the
/// announcement that carries its timestamp.
pub proof fn lemma_clip_follows_announcement(state: PromptStateView, j: int)
    requires
        state.consistent(),
        0 <= j < state.published.len(),
        play_time(state.published[j]) is Some,
    ensures
        exists|i: int|
            0 <= i < j && #[trigger] state.published[i] == (EventView::QueueAudio {
                generation_timestamp: play_time(state.published[j])->0,
            }),
{
    let t = play_time(state.published[j])->0;
    assert(announced_before(state.published, j, t));
    let i = choose|i: int|
        0 <= i < j && i < state.published.len() && #[trigger] queue_time(state.published[i])
            == Some(t);
    assert(state.published[i] == (EventView::QueueAudio { generation_timestamp: t }));
}

/// In every consistent state, of two announcements the one with the earlier
/// timestamp was published first.
pub proof fn lemma_announcements_keep_dispatch_order(state: PromptStateView, i: int, j: int)
    requires
        state.consistent(),
        0 <= i < state.published.len(),
        0 <= j < state.published.len(),
        queue_time(state.published[i]) is Some,
        queue_time(state.published[j]) is Some,
        queue_time(state.published[i])->0 < queue_time(state.published[j])->0,
    ensures
        i < j,
{
    if j < i {
        assert(queue_time(state.published[j])->0 < queue_time(state.published[i])->0);
    }
}

/// Two jobs dispatched one after the other, the second with the later
/// timestamp, are both accepted, and their announcements are published in
/// that order.
pub proof fn lemma_two_jobs_are_announced_in_order(state: PromptStateView, t1: u128, t2: u128)
    requires
        state.consistent(),
        state.accepts_timestamp(t1),
        t1 < t2,
    ensures
        state.audio_queued(t1).accepts_timestamp(t2),
        state.audio_queued(t1).audio_queued(t2).consistent(),
        state.audio_queued(t1).audio_queued(t2).published == state.published.push(
            EventView::QueueAudio { generation_timestamp: t1 },
        ).push(EventView::QueueAudio { generation_timestamp: t2 }),
        state.audio_queued(t1).audio_queued(t2).pending_audio.contains(t1),
        state.audio_queued(t1).audio_queued(t2).pending_audio.contains(t2),
{
    lemma_queue_keeps_consistency(state, t1);
    lemma_queue_keeps_consistency(state.audio_queued(t1), t2);
}

/// The clips of two waiting jobs may arrive in either order: whichever comes
/// first, both are accepted and the state stays consistent.
pub proof fn lemma_clips_may_arrive_in_either_order(
    state: PromptStateView,
    t1: u128,
    first_clip: Seq<u8>,
    t2: u128,
    second_clip: Seq<u8>,
)
    requires
        state.consistent(),
        state.pending_audio.contains(t1),
        state.pending_audio.contains(t2),
        t1 != t2,
    ensures
        state.audio_sent(t1, first_clip).pending_audio.contains(t2),
        state.audio_sent(t1, first_clip).audio_sent(t2, second_clip).consistent(),
        state.audio_sent(t2, second_clip).pending_audio.contains(t1),
        state.audio_sent(t2, second_clip).audio_sent(t1, first_clip).consistent(),
{
    lemma_send_keeps_consistency(state, t1, first_clip);
    lemma_send_keeps_consistency(state.audio_sent(t1, first_clip), t2, second_clip);
    lemma_send_keeps_consistency(state, t2, second_clip);
    lemma_send_keeps_consistency(state.audio_sent(t2, second_clip), t1, first_clip);
}

/// The values of `items` with one more value are the values of `items` and
/// that value.
proof fn lemma_push_to_set(items: Seq<u128>, t: u128)
    ensures
        items.push(t).to_set() == items.to_set().insert(t),
{
    let after = items.push(t);
    assert forall|u: u128| after.to_set().contains(u) <==> items.to_set().insert(t).contains(u) by {
        if after.contains(u) {
            let i = choose|i: int| 0 <= i < after.len() && after[i] == u;
            if i < items.len() {
                assert(items[i] == u);
            }
        }
        if items.contains(u) {
            let i = choose|i: int| 0 <= i < items.len() && items[i] == u;
            assert(after[i] == u);
        }
        if u == t {
            assert(after[items.len() as int] == u);
        }
    }
    assert(after.to_set() =~= items.to_set().insert(t));
}

/// Taking one place out of a list without repeats takes exactly its value
/// out of the values of the list.
proof fn lemma_remove_to_set(items: Seq<u128>, k: int)
    requires
        items.no_duplicates(),
        0 <= k < items.len(),
    ensures
        items.remove(k).no_duplicates(),
        items.remove(k).to_set() == items.to_set().remove(items[k]),
{
    let after = items.remove(k);
    assert forall|u: u128| after.to_set().contains(u) <==> items.to_set().remove(
        items[k],
    ).contains(u) by {
        if after.contains(u) {
            let i = choose|i: int| 0 <= i < after.len() && after[i] == u;
            if i < k {
                assert(items[i] == u);
            } else {
                assert(items[i + 1] == u);
            }
        }
        if items.contains(u) && u != items[k] {
            let i = choose|i: int| 0 <= i < items.len() && items[i] == u;
            if i < k {
                assert(after[i] == u);
            } else {
                assert(after[i - 1] == u);
            }
        }
    }
    assert(after.to_set() =~= items.to_set().remove(items[k]));
}

/// The shared state of a conversation. All parts of a reply change the
/// transcript and publish events through it, one at a time.
pub struct PromptState {
    store: ConversationStore,
    broadcaster: EventBroadcaster,
    pending_audio: Vec<u128>,
    latest_audio: Option<u128>,
}

impl View for PromptState {
    type V = PromptStateView;

    closed spec fn view(&self) -> PromptStateView {
        PromptStateView {
            transcript: self.store@,
            published: self.broadcaster.published(),
            subscriber: self.broadcaster.subscriber(),
            pending_audio: self.pending_audio@.to_set(),
            latest_audio: self.latest_audio,
        }
    }
}

impl PromptState {
    /// The waiting timestamps are kept without repeats.
    pub closed spec fn pending_kept_apart(&self) -> bool {
        self.pending_audio@.no_duplicates()
    }

    /// What holds of every state that this module hands out.
    pub open spec fn wf(&self) -> bool {
        self@.consistent() && self.pending_kept_apart()
    }

    /// An empty transcript, nobody attached, nothing published.
    pub fn new() -> (state: PromptState)
        ensures
            state.wf(),
            state@ == PromptStateView::empty(),
    {
        let state = PromptState {
            store: ConversationStore::new(),
            broadcaster: EventBroadcaster::new(),
            pending_audio: Vec::new(),
            latest_audio: None,
        };
        assert(state@.pending_audio =~= Set::<u128>::empty());
        state
    }

    /// Makes `channel` the subscriber, in place of any earlier one.
    pub fn attach(&mut self, channel: Sender<Event>)
        requires
            old(self).wf(),
        ensures
            final(self).wf(),
            final(self)@ == (PromptStateView { subscriber: Some(channel), ..old(self)@ }),
    {
        self.broadcaster.attach(channel);
    }

    /// Whether a subscriber is attached.
    pub fn is_attached(&self) -> (attached: bool)
        ensures
            attached == self@.subscriber is Some,
    {
        self.broadcaster.is_attached()
    }

    /// The number of messages in the transcript.
    pub fn len(&self) -> (len: usize)
        ensures
            len == self@.transcript.len(),
    {
        self.store.len()
    }

    /// A copy of the whole transcript as it is now.
    pub fn snapshot(&self) -> (copy: Vec<Message>)
        ensures
            transcript_of(copy@) == self@.transcript,
    {
        self.store.snapshot()
    }

    /// Publishes the whole transcript, for a subscriber to replace what it
    /// shows.
    pub fn replace_chat_history(&mut self)
        requires
            old(self).wf(),
        ensures
            final(self).wf(),
            final(self)@ == old(self)@.history_sent(),
    {
        let messages = self.store.snapshot();
        let event = Event::ChatHistory(ChatHistoryTemplate { messages });
        proof {
            lemma_other_event_keeps_consistency(self@, event@);
        }
        let _ = self.broadcaster.publish(event);
    }

    /// Appends `message` to the transcript, announces it, and returns the
    /// index it was given.
    pub fn send_message(&mut self, message: Message) -> (index: usize)
        requires
            old(self).wf(),
        ensures
            final(self).wf(),
            index == old(self)@.transcript.len(),
            final(self)@ == old(self)@.appended(message@),
    {
        let shown = message.clone();
        let index = self.store.append(message);
        let event = Event::NewMessage(MessageTemplate { index, message: shown });
        proof {
            lemma_other_event_keeps_consistency(
                PromptStateView { transcript: self.store@, ..old(self)@ },
                event@,
            );
        }
        let _ = self.broadcaster.publish(event);
        index
    }

    /// Adds `chunk` to the end of the text of the message at `index` and
    /// publishes the chunk alone as an update of that message.
    pub fn update_message(&mut self, index: usize, chunk: String) -> (outcome: Result<
        (),
        StoreError,
    >)
        requires
            old(self).wf(),
        ensures
            final(self).wf(),
            index < old(self)@.transcript.len() ==> ({
                &&& outcome is Ok
                &&& final(self)@ == old(self)@.updated(index, chunk@)
            }),
            index >= old(self)@.transcript.len() ==> ({
                &&& outcome == Err::<(), StoreError>(StoreError::InvalidIndex)
                &&& final(self)@ == old(self)@
            }),
    {
        match self.store.extend_content(index, chunk.as_str()) {
            Err(error) => Err(error),
            Ok(()) => {
                let event = Event::UpdateMessage { index, span: chunk };
                proof {
                    lemma_other_event_keeps_consistency(
                        PromptStateView { transcript: self.store@, ..old(self)@ },
                        event@,
                    );
                }
                let _ = self.broadcaster.publish(event);
                Ok(())
            },
        }
    }

    /// The timestamp under which speech dispatched at `clock` can be
    /// announced next: `clock` itself wherever that keeps the timestamps
    /// increasing.
    pub fn next_timestamp(&self, clock: u128) -> (timestamp: Option<u128>)
        ensures
            timestamp == self@.next_timestamp(clock),
            timestamp matches Some(t) ==> self@.accepts_timestamp(t) && t >= clock,
            self@.accepts_timestamp(clock) ==> timestamp == Some(clock),
    {
        match self.latest_audio {
            Some(latest) if clock <= latest => {
                if latest < u128::MAX {
                    Some(latest + 1)
                } else {
                    None
                }
            },
            _ => Some(clock),
        }
    }

    /// Announces that speech generated at `generation_time` is on its way.
    /// The timestamp must be later than that of every earlier announcement.
    pub fn queue_audio(&mut self, generation_time: u128) -> (outcome: Result<(), AudioError>)
        requires
            old(self).wf(),
        ensures
            final(self).wf(),
            old(self)@.accepts_timestamp(generation_time) ==> ({
                &&& outcome is Ok
                &&& final(self)@ == old(self)@.audio_queued(generation_time)
            }),
            !old(self)@.accepts_timestamp(generation_time) ==> ({
                &&& outcome == Err::<(), AudioError>(AudioError::StaleTimestamp)
                &&& final(self)@ == old(self)@
            }),
    {
        let fresh = match self.latest_audio {
            None => true,
            Some(latest) => latest < generation_time,
        };
        if !fresh {
            return Err(AudioError::StaleTimestamp);
        }
        proof {
            lemma_queue_keeps_consistency(self@, generation_time);
            lemma_push_to_set(self.pending_audio@, generation_time);
            assert(!self.pending_audio@.contains(generation_time)) by {
                if self@.pending_audio.contains(generation_time) {
                    let i = choose|i: int|
                        0 <= i < self@.published.len() && #[trigger] queue_time(self@.published[i])
                            == Some(generation_time);
                    assert(queue_time(self@.published[i]) is Some);
                }
            }
        }
        self.pending_audio.push(generation_time);
        self.latest_audio = Some(generation_time);
        let _ = self.broadcaster.publish(
            Event::QueueAudio { generation_timestamp: generation_time },
        );
        Ok(())
    }

    /// Publishes the clip that was announced under `generation_time`, encoded
    /// as base64 text. A clip is accepted once, and only if it was announced.
    pub fn send_audio(&mut self, generation_time: u128, data: &[u8]) -> (outcome: Result<
        (),
        AudioError,
    >)
        requires
            old(self).wf(),
        ensures
            final(self).wf(),
            old(self)@.pending_audio.contains(generation_time) ==> ({
                &&& outcome is Ok
                &&& final(self)@ == old(self)@.audio_sent(generation_time, data@)
            }),
            !old(self)@.pending_audio.contains(generation_time) ==> ({
                &&& outcome == Err::<(), AudioError>(AudioError::NotQueued)
                &&& final(self)@ == old(self)@
            }),
    {
        match self.position_of(generation_time) {
            None => Err(AudioError::NotQueued),
            Some(position) => {
                proof {
                    lemma_send_keeps_consistency(self@, generation_time, data@);
                    lemma_remove_to_set(self.pending_audio@, position as int);
                }
                self.pending_audio.remove(position);
                let encoded_audio = encode(data);
                let _ = self.broadcaster.publish(
                    Event::PlayAudio { encoded_audio, generation_timestamp: generation_time },
                );
                Ok(())
            },
        }
    }

    /// Stops waiting for the clip announced under `generation_time`. Nothing
    /// is published: the subscriber's announcement stays unanswered.
    pub fn abandon_audio(&mut self, generation_time: u128)
        requires
            old(self).wf(),
        ensures
            final(self).wf(),
            final(self)@ == old(self)@.audio_abandoned(generation_time),
    {
        proof {
            lemma_abandon_keeps_consistency(self@, generation_time);
        }
        match self.position_of(generation_time) {
            None => {
                assert(self@.pending_audio.remove(generation_time) =~= self@.pending_audio);
            },
            Some(position) => {
                proof {
                    lemma_remove_to_set(self.pending_audio@, position as int);
                }
                self.pending_audio.remove(position);
            },
        }
    }

    fn position_of(&self, generation_time: u128) -> (found: Option<usize>)
        ensures
            found matches Some(position) ==> position < self.pending_audio@.len()
                && self.pending_audio@[position as int] == generation_time,
            found is None ==> !self@.pending_audio.contains(generation_time),
            found is Some ==> self@.pending_audio.contains(generation_time),
    {
        let mut i: usize = 0;
        while i < self.pending_audio.len()
            invariant
                i <= self.pending_audio.len(),
                forall|k: int| 0 <= k < i ==> self.pending_audio@[k] != generation_time,
            decreases self.pending_audio.len() - i,
        {
            if self.pending_audio[i] == generation_time {
                assert(self.pending_audio@.contains(generation_time));
                return Some(i);
            }
            i += 1;
        }
        None
    }
}

impl Default for PromptState {
    fn default() -> (state: PromptState)
        ensures
            state.wf(),
            state@ == PromptStateView::empty(),
    {
        PromptState::new()
    }
}

} // verus!
