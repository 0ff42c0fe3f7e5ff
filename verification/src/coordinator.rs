//! One turn of the conversation: from the prompt, through the chunks of the
//! reply as they stream in, to the closing publication of the whole
//! transcript.
//!
//! The coordinator decides; it does not wait. Whatever takes time (reading
//! the next chunk, speech synthesis, running a tool) is done by the caller,
//! who is told what to start by the [`Action`] that a step returns. By then
//! the subscriber has been told already: the speech is announced, the empty
//! message for the tool's result is in the transcript.

use vstd::prelude::*;
use crate::audio::{after_dispatch, dispatched_job, AudioJob, AudioJobView};
use crate::event::EventView;
use crate::flusher::{Arrival, TokenFlusher, TokenFlusherView};
use crate::message::{Message, MessageView, Role};
use crate::sentences::{SentenceAccumulator, SentenceAccumulatorView};
use crate::state::{PromptState, PromptStateView};
use crate::text::{concat_all, lemma_concat_all_push, text_view};
use crate::tools::{resolved, PendingToolCall, ToolDispatcher, ToolKind};

verus! {

/// Where a turn stands.
#[derive(Clone, Copy, Debug, PartialEq, Eq, Structural)]
pub enum Phase {
    /// No prompt yet.
    Idle,
    /// The prompt is in the transcript; no chunk of the reply has come.
    AwaitingFirstToken,
    /// Chunks of the reply are coming in.
    Streaming,
    /// The reply has ended; what is buffered has still to be flushed.
    Draining,
    /// Everything is flushed and the transcript has been published.
    Closed,
}

impl Phase {
    /// Whether a turn may go from `self` to `next` in one step. A turn only
    /// moves forward: from the prompt to the first chunk, through the
    /// stream, to draining and to the end.
    pub open spec fn leads_to(self, next: Phase) -> bool {
        match self {
            Phase::Idle => next == Phase::AwaitingFirstToken,
            Phase::AwaitingFirstToken => next == Phase::Streaming || next == Phase::Draining,
            Phase::Streaming => next == Phase::Streaming || next == Phase::Draining,
            Phase::Draining => next == Phase::Closed,
            Phase::Closed => false,
        }
    }
}

/// One unit of the streamed reply.
#[derive(Debug, PartialEq, Eq)]
pub enum Chunk {
    /// A piece of text.
    TextFragment(String),
    /// A request to run a tool, with its arguments as JSON text.
    ToolCall { name: String, arguments: String },
}

/// Work that the caller is asked to start, without waiting for it.
#[derive(Debug)]
pub enum Action {
    /// Synthesize speech for the text of `job`, and hand the clip to
    /// [`AudioJob::complete`].
    Speak { job: AudioJob },
    /// Run the tool behind `call` with `arguments`, and hand what it returns
    /// to [`ToolDispatcher::complete`].
    InvokeTool { call: PendingToolCall, arguments: String },
}

/// Mathematical value of an [`Action`].
pub enum ActionView {
    Speak { job: AudioJobView },
    InvokeTool { index: usize, kind: ToolKind, arguments: Seq<char> },
}

impl View for Action {
    type V = ActionView;

    open spec fn view(&self) -> ActionView {
        match *self {
            Action::Speak { job } => ActionView::Speak { job: job@ },
            Action::InvokeTool { call, arguments } => ActionView::InvokeTool {
                index: call.target(),
                kind: call.tool(),
                arguments: arguments@,
            },
        }
    }
}

/// The value of an action that may be absent.
pub open spec fn action_view(action: Option<Action>) -> Option<ActionView> {
    match action {
        Some(action) => Some(action@),
        None => None,
    }
}

/// The request to speak `span`, dispatched when the clock reads `now`, where
/// there is a span and a timestamp for it.
pub open spec fn speak(state: PromptStateView, span: Option<Seq<char>>, now: u128) -> Option<
    ActionView,
> {
    match span {
        Some(text) => match dispatched_job(state, text, now) {
            Some(job) => Some(ActionView::Speak { job }),
            None => None,
        },
        None => None,
    }
}

/// The state after the speech for `span` was announced, where there is a
/// span.
pub open spec fn announced(state: PromptStateView, span: Option<Seq<char>>, now: u128)
    -> PromptStateView {
    match span {
        Some(_) => after_dispatch(state, now),
        None => state,
    }
}

/// Why a step was refused. A refused step changes nothing.
#[derive(Clone, Copy, Debug, PartialEq, Eq, Structural)]
pub enum TurnError {
    /// The turn is not in a phase in which this step can be taken.
    WrongPhase,
    /// The message that the reply is written to is not in the transcript
    /// that was handed in.
    InvalidIndex,
}

/// Mathematical value of a [`StreamCoordinator`].
pub struct StreamCoordinatorView {
    pub phase: Phase,
    /// The index of the assistant message that the text of the reply is
    /// written to, once there is one.
    pub target: Option<usize>,
    pub flusher: TokenFlusherView,
    pub sentences: SentenceAccumulatorView,
}

/// What a step leaves behind: the coordinator, the shared state, and the
/// action asked of the caller.
pub struct Outcome {
    pub coordinator: StreamCoordinatorView,
    pub state: PromptStateView,
    pub action: Option<ActionView>,
}

impl Outcome {
    /// Whether a step ended as this outcome says: it was accepted, it left
    /// `coordinator` and `state` behind, and it asked for the action in
    /// `result`.
    pub open spec fn reached(
        self,
        coordinator: StreamCoordinatorView,
        state: PromptStateView,
        result: Result<Option<Action>, TurnError>,
    ) -> bool {
        &&& result matches Ok(action) && action_view(action) == self.action
        &&& coordinator == self.coordinator
        &&& state == self.state
    }
}

/// Whether `result` is the refusal `error`.
pub open spec fn refused(result: Result<Option<Action>, TurnError>, error: TurnError) -> bool {
    result matches Err(given) && given == error
}

impl StreamCoordinatorView {
    /// A turn that has not begun.
    pub open spec fn idle(min_interval: u128) -> StreamCoordinatorView {
        StreamCoordinatorView {
            phase: Phase::Idle,
            target: None,
            flusher: TokenFlusherView { pending: Seq::empty(), last_flush: 0, min_interval },
            sentences: SentenceAccumulatorView::fresh(),
        }
    }

    /// Whether chunks of the reply are accepted in this phase.
    pub open spec fn accepts_chunks(self) -> bool {
        self.phase == Phase::AwaitingFirstToken || self.phase == Phase::Streaming
    }

    /// Whether the message that the reply is written to exists in `state`.
    pub open spec fn target_in(self, state: PromptStateView) -> bool {
        self.target matches Some(index) ==> index < state.transcript.len()
    }

    /// Why a chunk is refused, if it is.
    pub open spec fn chunk_refusal(self, state: PromptStateView) -> Option<TurnError> {
        if !self.accepts_chunks() {
            Some(TurnError::WrongPhase)
        } else if !self.target_in(state) {
            Some(TurnError::InvalidIndex)
        } else {
            None
        }
    }

    /// Why draining is refused, if it is.
    pub open spec fn drain_refusal(self, state: PromptStateView) -> Option<TurnError> {
        if self.phase != Phase::Draining {
            Some(TurnError::WrongPhase)
        } else if !self.target_in(state) {
            Some(TurnError::InvalidIndex)
        } else {
            None
        }
    }

    /// After the prompt was appended to the transcript.
    pub open spec fn after_prompt(self, state: PromptStateView, prompt: Seq<char>) -> Outcome {
        Outcome {
            coordinator: StreamCoordinatorView { phase: Phase::AwaitingFirstToken, ..self },
            state: state.appended(Message::user_view(prompt)),
            action: None,
        }
    }

    /// Makes sure there is a message for the text of the reply: the first
    /// fragment of text creates an empty assistant message and starts the
    /// flush interval at `now`; later fragments find the message in place.
    pub open spec fn with_target(self, state: PromptStateView, now: u128) -> Outcome {
        match self.target {
            Some(_) => Outcome {
                coordinator: StreamCoordinatorView { phase: Phase::Streaming, ..self },
                state,
                action: None,
            },
            None => Outcome {
                coordinator: StreamCoordinatorView {
                    phase: Phase::Streaming,
                    target: Some(state.transcript.len() as usize),
                    flusher: TokenFlusherView { last_flush: now, ..self.flusher },
                    ..self
                },
                state: state.appended(Message::placeholder_view()),
                action: None,
            },
        }
    }

    /// After a fragment of text that arrived at `now`: the fragment is
    /// pushed to the flusher and fed to the sentences, a timed flush is
    /// tried, and if a span is ready for speech, its job is dispatched.
    pub open spec fn after_text(self, state: PromptStateView, fragment: Seq<char>, now: u128)
        -> Outcome {
        let opened = self.with_target(state, now);
        let arrival = Arrival { fragment, now };
        let fed = opened.coordinator.sentences.fed(fragment);
        let written = opened.coordinator.flusher.wrote(
            opened.state,
            opened.coordinator.target->0,
            arrival,
        );
        Outcome {
            coordinator: StreamCoordinatorView {
                flusher: opened.coordinator.flusher.took(arrival),
                sentences: fed.asked(),
                ..opened.coordinator
            },
            state: announced(written, fed.offered(), now),
            action: speak(written, fed.offered(), now),
        }
    }

    /// After each of `arrivals` came in as a fragment of text, in order.
    pub open spec fn after_texts(self, state: PromptStateView, arrivals: Seq<Arrival>) -> Outcome
        decreases arrivals.len(),
    {
        if arrivals.len() == 0 {
            Outcome { coordinator: self, state, action: None }
        } else {
            let before = self.after_texts(state, arrivals.drop_last());
            before.coordinator.after_text(
                before.state,
                arrivals.last().fragment,
                arrivals.last().now,
            )
        }
    }

    /// After a request to run the tool called `name`.
    pub open spec fn after_tool_call(
        self,
        state: PromptStateView,
        name: Seq<char>,
        arguments: Seq<char>,
    ) -> Outcome {
        let coordinator = StreamCoordinatorView { phase: Phase::Streaming, ..self };
        match ToolKind::named(name) {
            Some(kind) => Outcome {
                coordinator,
                state: state.appended(Message::placeholder_view()),
                action: Some(
                    ActionView::InvokeTool {
                        index: state.transcript.len() as usize,
                        kind,
                        arguments,
                    },
                ),
            },
            None => Outcome { coordinator, state, action: None },
        }
    }

    /// After a chunk that arrived at `now`.
    pub open spec fn after_chunk(self, state: PromptStateView, chunk: Chunk, now: u128) -> Outcome {
        match chunk {
            Chunk::TextFragment(fragment) => self.after_text(state, fragment@, now),
            Chunk::ToolCall { name, arguments } => self.after_tool_call(
                state,
                name@,
                arguments@,
            ),
        }
    }

    /// After the end of the stream, drained at `now`: what is buffered is
    /// flushed, the job for the text that was not spoken yet is dispatched,
    /// and the whole transcript is published.
    pub open spec fn after_drain(self, state: PromptStateView, now: u128) -> Outcome {
        let written = match self.target {
            Some(index) => self.flusher.wrote_rest(state, index),
            None => state,
        };
        Outcome {
            coordinator: StreamCoordinatorView {
                phase: Phase::Closed,
                flusher: match self.target {
                    Some(_) => self.flusher.emptied(),
                    None => self.flusher,
                },
                sentences: self.sentences.drained(),
                ..self
            },
            state: announced(written, self.sentences.offered_at_end(), now).history_sent(),
            action: speak(written, self.sentences.offered_at_end(), now),
        }
    }
}

/// Drives one turn.
pub struct StreamCoordinator {
    phase: Phase,
    target: Option<usize>,
    flusher: TokenFlusher,
    sentences: SentenceAccumulator,
}

impl View for StreamCoordinator {
    type V = StreamCoordinatorView;

    closed spec fn view(&self) -> StreamCoordinatorView {
        StreamCoordinatorView {
            phase: self.phase,
            target: self.target,
            flusher: self.flusher@,
            sentences: self.sentences@,
        }
    }
}

impl StreamCoordinator {
    /// A turn that has not begun. Timed flushes are more than `min_interval`
    /// apart.
    pub fn new(min_interval: u128) -> (coordinator: StreamCoordinator)
        ensures
            coordinator@ == StreamCoordinatorView::idle(min_interval),
    {
        StreamCoordinator {
            phase: Phase::Idle,
            target: None,
            flusher: TokenFlusher::new(0, min_interval),
            sentences: SentenceAccumulator::new(),
        }
    }

    /// Where the turn stands.
    pub fn phase(&self) -> (phase: Phase)
        ensures
            phase == self@.phase,
    {
        self.phase
    }

    /// The index of the message that the text of the reply is written to.
    pub fn target(&self) -> (target: Option<usize>)
        ensures
            target == self@.target,
    {
        self.target
    }

    /// Begins the turn: the prompt becomes a user message at the end of the
    /// transcript. Returns the index of that message. A turn that has begun
    /// already refuses a second prompt.
    pub fn submit_prompt(&mut self, state: &mut PromptState, prompt: String) -> (outcome: Result<
        usize,
        TurnError,
    >)
        requires
            old(state).wf(),
        ensures
            final(state).wf(),
            old(self)@.phase == Phase::Idle ==> ({
                &&& outcome == Ok::<usize, TurnError>(old(state)@.transcript.len() as usize)
                &&& final(self)@ == old(self)@.after_prompt(old(state)@, prompt@).coordinator
                &&& final(state)@ == old(self)@.after_prompt(old(state)@, prompt@).state
            }),
            old(self)@.phase != Phase::Idle ==> ({
                &&& outcome == Err::<usize, TurnError>(TurnError::WrongPhase)
                &&& final(self)@ == old(self)@
                &&& final(state)@ == old(state)@
            }),
    {
        match self.phase {
            Phase::Idle => {
                let index = state.send_message(Message::user(prompt));
                self.phase = Phase::AwaitingFirstToken;
                Ok(index)
            },
            _ => Err(TurnError::WrongPhase),
        }
    }

    fn chunk_check(&self, state: &PromptState) -> (refusal: Option<TurnError>)
        ensures
            refusal == self@.chunk_refusal(state@),
    {
        match self.phase {
            Phase::AwaitingFirstToken | Phase::Streaming => {},
            _ => {
                return Some(TurnError::WrongPhase);
            },
        }
        match self.target {
            Some(index) if index >= state.len() => Some(TurnError::InvalidIndex),
            _ => None,
        }
    }

    /// Takes a fragment of text that arrived at `now`. The first fragment of
    /// a turn creates the empty assistant message that the reply is written
    /// to. The fragment is buffered; the buffer is flushed if the flush
    /// interval has passed; and if enough sentences are complete, speech for
    /// them is announced and the caller is asked to have them spoken.
    pub fn on_text(
        &mut self,
        state: &mut PromptState,
        fragment: String,
        now: u128,
    ) -> (outcome: Result<Option<Action>, TurnError>)
        requires
            old(state).wf(),
        ensures
            final(state).wf(),
            old(self)@.chunk_refusal(old(state)@) is None ==> old(self)@.after_text(
                old(state)@,
                fragment@,
                now,
            ).reached(final(self)@, final(state)@, outcome),
            old(self)@.chunk_refusal(old(state)@) matches Some(error) ==> ({
                &&& refused(outcome, error)
                &&& final(self)@ == old(self)@
                &&& final(state)@ == old(state)@
            }),
    {
        if let Some(error) = self.chunk_check(state) {
            return Err(error);
        }
        self.phase = Phase::Streaming;
        let index = match self.target {
            Some(index) => index,
            None => {
                let index = state.send_message(Message::placeholder());
                self.target = Some(index);
                self.flusher.restart(now);
                index
            },
        };
        self.sentences.on_fragment(fragment.as_str());
        self.flusher.push(fragment);
        let flushed = self.flusher.maybe_flush(state, index, now);
        assert(flushed is Ok);
        let span = self.sentences.maybe_dispatch();
        Ok(StreamCoordinator::announce_speech(state, span, now))
    }

    fn announce_speech(state: &mut PromptState, span: Option<String>, now: u128) -> (action: Option<
        Action,
    >)
        requires
            old(state).wf(),
        ensures
            final(state).wf(),
            final(state)@ == announced(old(state)@, text_view(span), now),
            action_view(action) == speak(old(state)@, text_view(span), now),
    {
        match span {
            None => None,
            Some(text) => match AudioJob::dispatch(state, text, now) {
                Ok(job) => Some(Action::Speak { job }),
                Err(_) => None,
            },
        }
    }

    /// Takes a request to run a tool. A known tool gets an empty assistant
    /// message for its result, and the caller is asked to run it; an unknown
    /// name is passed over. The message for the text of the reply is not
    /// touched, and none is created.
    pub fn on_tool_call(
        &mut self,
        state: &mut PromptState,
        name: String,
        arguments: String,
    ) -> (outcome: Result<Option<Action>, TurnError>)
        requires
            old(state).wf(),
        ensures
            final(state).wf(),
            old(self)@.chunk_refusal(old(state)@) is None ==> old(self)@.after_tool_call(
                old(state)@,
                name@,
                arguments@,
            ).reached(final(self)@, final(state)@, outcome),
            old(self)@.chunk_refusal(old(state)@) matches Some(error) ==> ({
                &&& refused(outcome, error)
                &&& final(self)@ == old(self)@
                &&& final(state)@ == old(state)@
            }),
    {
        if let Some(error) = self.chunk_check(state) {
            return Err(error);
        }
        self.phase = Phase::Streaming;
        match ToolDispatcher::dispatch(state, name.as_str()) {
            Some(call) => Ok(Some(Action::InvokeTool { call, arguments })),
            None => Ok(None),
        }
    }

    /// Takes the next chunk of the reply, which arrived at `now`.
    pub fn on_chunk(
        &mut self,
        state: &mut PromptState,
        chunk: Chunk,
        now: u128,
    ) -> (outcome: Result<Option<Action>, TurnError>)
        requires
            old(state).wf(),
        ensures
            final(state).wf(),
            old(self)@.chunk_refusal(old(state)@) is None ==> old(self)@.after_chunk(
                old(state)@,
                chunk,
                now,
            ).reached(final(self)@, final(state)@, outcome),
            old(self)@.chunk_refusal(old(state)@) matches Some(error) ==> ({
                &&& refused(outcome, error)
                &&& final(self)@ == old(self)@
                &&& final(state)@ == old(state)@
            }),
    {
        match chunk {
            Chunk::TextFragment(fragment) => self.on_text(state, fragment, now),
            Chunk::ToolCall { name, arguments } => self.on_tool_call(state, name, arguments),
        }
    }

    /// Takes the end of the stream, or its failure: no more chunks are
    /// accepted, and what is buffered waits to be drained.
    pub fn end_stream(&mut self) -> (outcome: Result<(), TurnError>)
        ensures
            old(self)@.accepts_chunks() ==> ({
                &&& outcome is Ok
                &&& final(self)@ == (StreamCoordinatorView { phase: Phase::Draining, ..old(self)@ })
            }),
            !old(self)@.accepts_chunks() ==> ({
                &&& outcome == Err::<(), TurnError>(TurnError::WrongPhase)
                &&& final(self)@ == old(self)@
            }),
    {
        match self.phase {
            Phase::AwaitingFirstToken | Phase::Streaming => {
                self.phase = Phase::Draining;
                Ok(())
            },
            _ => Err(TurnError::WrongPhase),
        }
    }

    /// Closes the turn at `now`: the buffered text is flushed, speech for
    /// whatever text was not spoken yet is announced and asked for, and the
    /// whole transcript is published.
    pub fn drain(&mut self, state: &mut PromptState, now: u128) -> (outcome: Result<
        Option<Action>,
        TurnError,
    >)
        requires
            old(state).wf(),
        ensures
            final(state).wf(),
            old(self)@.drain_refusal(old(state)@) is None ==> old(self)@.after_drain(
                old(state)@,
                now,
            ).reached(final(self)@, final(state)@, outcome),
            old(self)@.drain_refusal(old(state)@) matches Some(error) ==> ({
                &&& refused(outcome, error)
                &&& final(self)@ == old(self)@
                &&& final(state)@ == old(state)@
            }),
    {
        match self.phase {
            Phase::Draining => {},
            _ => {
                return Err(TurnError::WrongPhase);
            },
        }
        match self.target {
            Some(index) => {
                if index >= state.len() {
                    return Err(TurnError::InvalidIndex);
                }
                let flushed = self.flusher.force_flush(state, index);
                assert(flushed is Ok);
            },
            None => {},
        }
        let span = self.sentences.flush_remainder();
        let action = StreamCoordinator::announce_speech(state, span, now);
        state.replace_chat_history();
        self.phase = Phase::Closed;
        Ok(action)
    }
}

/// The text of the reply as far as it has come in: what was written to the
/// message of the reply already, and what is still buffered.
pub open spec fn reply_text(coordinator: StreamCoordinatorView, state: PromptStateView) -> Seq<
    char,
> {
    match coordinator.target {
        Some(index) => state.transcript[index as int].content + coordinator.flusher.span(),
        None => coordinator.flusher.span(),
    }
}

/// Flushing neither loses nor repeats text: after a fragment, the text of
/// the reply is what it was before, and the fragment.
pub proof fn lemma_text_is_conserved(
    coordinator: StreamCoordinatorView,
    state: PromptStateView,
    fragment: Seq<char>,
    now: u128,
)
    requires
        coordinator.target_in(state),
        coordinator.target is None ==> state.transcript.len() < usize::MAX,
    ensures
        coordinator.after_text(state, fragment, now).coordinator.target is Some,
        coordinator.after_text(state, fragment, now).coordinator.target_in(
            coordinator.after_text(state, fragment, now).state,
        ),
        reply_text(
            coordinator.after_text(state, fragment, now).coordinator,
            coordinator.after_text(state, fragment, now).state,
        ) == reply_text(coordinator, state) + fragment,
{
    let opened = coordinator.with_target(state, now);
    let after = coordinator.after_text(state, fragment, now);
    lemma_concat_all_push(opened.coordinator.flusher.pending, fragment);
    assert(concat_all(Seq::<Seq<char>>::empty()) =~= Seq::<char>::empty());
    assert(reply_text(opened.coordinator, opened.state) =~= reply_text(coordinator, state));
    assert(reply_text(after.coordinator, after.state) =~= reply_text(
        opened.coordinator,
        opened.state,
    ) + fragment);
}

/// A turn has at most one message for the text of the reply: a fragment of
/// text appends a message only if there is none yet, and from then on the
/// message stays the same.
pub proof fn lemma_one_message_for_text(
    coordinator: StreamCoordinatorView,
    state: PromptStateView,
    fragment: Seq<char>,
    now: u128,
)
    requires
        coordinator.target_in(state),
        state.transcript.len() < usize::MAX,
    ensures
        coordinator.target is Some ==> ({
            &&& coordinator.after_text(state, fragment, now).coordinator.target
                == coordinator.target
            &&& coordinator.after_text(state, fragment, now).state.transcript.len()
                == state.transcript.len()
        }),
        coordinator.target is None ==> ({
            &&& coordinator.after_text(state, fragment, now).coordinator.target == Some(
                state.transcript.len() as usize,
            )
            &&& coordinator.after_text(state, fragment, now).state.transcript.len()
                == state.transcript.len() + 1
        }),
{
}

/// A tool call never creates or changes the message for the text of the
/// reply: a known tool appends one empty message for its own result, an
/// unknown one appends nothing, and the buffers are left alone.
pub proof fn lemma_tool_call_leaves_text_alone(
    coordinator: StreamCoordinatorView,
    state: PromptStateView,
    name: Seq<char>,
    arguments: Seq<char>,
)
    ensures
        coordinator.after_tool_call(state, name, arguments).coordinator.target
            == coordinator.target,
        coordinator.after_tool_call(state, name, arguments).coordinator.flusher
            == coordinator.flusher,
        coordinator.after_tool_call(state, name, arguments).coordinator.sentences
            == coordinator.sentences,
        ToolKind::named(name) is Some ==> coordinator.after_tool_call(
            state,
            name,
            arguments,
        ).state.transcript == state.transcript.push(Message::placeholder_view()),
        ToolKind::named(name) is None ==> coordinator.after_tool_call(
            state,
            name,
            arguments,
        ).state == state,
{
}

/// A turn closes with the whole transcript: the last event published is the
/// transcript as it stands at the end, nothing is left in the buffers, and
/// the message of the reply holds all the text that came in.
pub proof fn lemma_turn_closes_with_transcript(
    coordinator: StreamCoordinatorView,
    state: PromptStateView,
    now: u128,
)
    requires
        coordinator.target_in(state),
    ensures
        coordinator.after_drain(state, now).coordinator.phase == Phase::Closed,
        coordinator.after_drain(state, now).state.published.last() == (EventView::ChatHistory {
            messages: coordinator.after_drain(state, now).state.transcript,
        }),
        coordinator.after_drain(state, now).coordinator.sentences.remainder().len() == 0,
        coordinator.target matches Some(index) ==> ({
            &&& coordinator.after_drain(state, now).coordinator.flusher.pending.len() == 0
            &&& coordinator.after_drain(state, now).state.transcript[index as int].content
                == reply_text(coordinator, state)
        }),
{
    assert(concat_all(Seq::<Seq<char>>::empty()) + Seq::<char>::empty() =~= Seq::<char>::empty());
    if coordinator.target is Some && coordinator.flusher.pending.len() == 0 {
        assert(coordinator.flusher.span() =~= Seq::<char>::empty());
        assert(reply_text(coordinator, state)
            =~= state.transcript[coordinator.target->0 as int].content);
    }
}

/// Every step that is accepted moves the turn along one of the arrows of
/// [`Phase::leads_to`], and from the closed phase no step is accepted.
pub proof fn lemma_steps_follow_the_phases(
    coordinator: StreamCoordinatorView,
    state: PromptStateView,
    chunk: Chunk,
    prompt: Seq<char>,
    now: u128,
)
    ensures
        coordinator.phase == Phase::Idle ==> coordinator.phase.leads_to(
            coordinator.after_prompt(state, prompt).coordinator.phase,
        ),
        coordinator.accepts_chunks() ==> coordinator.phase.leads_to(
            coordinator.after_chunk(state, chunk, now).coordinator.phase,
        ),
        coordinator.accepts_chunks() ==> coordinator.phase.leads_to(Phase::Draining),
        coordinator.phase == Phase::Draining ==> coordinator.phase.leads_to(
            coordinator.after_drain(state, now).coordinator.phase,
        ),
        coordinator.phase == Phase::Closed ==> !coordinator.accepts_chunks() && forall|next: Phase|
            !coordinator.phase.leads_to(next),
{
}

/// Whatever the caller is asked to have spoken has been announced: the
/// announcement under the job's timestamp is the last event of the step but
/// for the closing transcript, and the job is waiting for its clip.
pub proof fn lemma_speech_is_announced_first(
    coordinator: StreamCoordinatorView,
    state: PromptStateView,
    fragment: Seq<char>,
    now: u128,
)
    ensures
        coordinator.after_text(state, fragment, now).action matches Some(
            ActionView::Speak { job },
        ) ==> ({
            &&& coordinator.after_text(state, fragment, now).state.published.last()
                == (EventView::QueueAudio { generation_timestamp: job.generation_timestamp })
            &&& coordinator.after_text(state, fragment, now).state.pending_audio.contains(
                job.generation_timestamp,
            )
        }),
        coordinator.after_drain(state, now).action matches Some(ActionView::Speak { job }) ==> ({
            &&& coordinator.after_drain(state, now).state.published.drop_last().last()
                == (EventView::QueueAudio { generation_timestamp: job.generation_timestamp })
            &&& coordinator.after_drain(state, now).state.pending_audio.contains(
                job.generation_timestamp,
            )
        }),
{
    let drained = coordinator.after_drain(state, now);
    if drained.action is Some {
        let written = match coordinator.target {
            Some(index) => coordinator.flusher.wrote_rest(state, index),
            None => state,
        };
        let told = announced(written, coordinator.sentences.offered_at_end(), now);
        assert(drained.state.published.drop_last() =~= told.published);
    }
}

/// The fragments of `arrivals`, in order.
pub open spec fn fragments_of(arrivals: Seq<Arrival>) -> Seq<Seq<char>> {
    arrivals.map_values(|arrival: Arrival| arrival.fragment)
}

/// While text streams in, the transcript grows by the one message of the
/// reply and is otherwise left as it was, and the text of the reply is all
/// the fragments so far, joined.
proof fn lemma_texts_accumulate(
    coordinator: StreamCoordinatorView,
    state: PromptStateView,
    arrivals: Seq<Arrival>,
)
    requires
        coordinator.target is None,
        coordinator.flusher.pending.len() == 0,
        state.transcript.len() < usize::MAX,
        arrivals.len() > 0,
    ensures
        coordinator.after_texts(state, arrivals).coordinator.target == Some(
            state.transcript.len() as usize,
        ),
        coordinator.after_texts(state, arrivals).state.transcript.len() == state.transcript.len()
            + 1,
        coordinator.after_texts(state, arrivals).state.transcript.drop_last() == state.transcript,
        coordinator.after_texts(state, arrivals).state.transcript.last().role == Role::Assistant,
        reply_text(
            coordinator.after_texts(state, arrivals).coordinator,
            coordinator.after_texts(state, arrivals).state,
        ) == concat_all(fragments_of(arrivals)),
    decreases arrivals.len(),
{
    let earlier = arrivals.drop_last();
    let before = coordinator.after_texts(state, earlier);
    let after = coordinator.after_texts(state, arrivals);
    let fragment = arrivals.last().fragment;
    assert(fragments_of(arrivals).drop_last() =~= fragments_of(earlier));
    assert(fragments_of(arrivals).last() == fragment);
    if earlier.len() == 0 {
        assert(concat_all(coordinator.flusher.pending) =~= Seq::<char>::empty());
        assert(concat_all(fragments_of(earlier)) =~= Seq::<char>::empty());
    } else {
        lemma_texts_accumulate(coordinator, state, earlier);
    }
    lemma_text_is_conserved(before.coordinator, before.state, fragment, arrivals.last().now);
    assert(after.state.transcript.drop_last() =~= state.transcript);
    assert(reply_text(after.coordinator, after.state) =~= concat_all(fragments_of(arrivals)));
}

/// A reply of nothing but text ends up in the transcript whole: after the
/// prompt, any number of fragments, at least one, and the end of the stream,
/// the transcript is what it was before the turn, the prompt as a user
/// message, and one assistant message whose text is all the fragments
/// joined; and the last event published is this transcript.
pub proof fn lemma_text_reply_is_complete(
    min_interval: u128,
    state: PromptStateView,
    prompt: Seq<char>,
    arrivals: Seq<Arrival>,
    now: u128,
)
    requires
        state.transcript.len() + 1 < usize::MAX,
        arrivals.len() > 0,
    ensures
        ({
            let begun = StreamCoordinatorView::idle(min_interval).after_prompt(state, prompt);
            let streamed = begun.coordinator.after_texts(begun.state, arrivals);
            let closed = streamed.coordinator.after_drain(streamed.state, now);
            &&& closed.coordinator.phase == Phase::Closed
            &&& closed.state.transcript == state.transcript.push(Message::user_view(prompt)).push(
                MessageView {
                    role: Role::Assistant,
                    content: concat_all(fragments_of(arrivals)),
                },
            )
            &&& closed.state.published.last() == (EventView::ChatHistory {
                messages: closed.state.transcript,
            })
        }),
{
    let begun = StreamCoordinatorView::idle(min_interval).after_prompt(state, prompt);
    let streamed = begun.coordinator.after_texts(begun.state, arrivals);
    let closed = streamed.coordinator.after_drain(streamed.state, now);
    lemma_texts_accumulate(begun.coordinator, begun.state, arrivals);
    lemma_turn_closes_with_transcript(streamed.coordinator, streamed.state, now);
    let index = begun.state.transcript.len() as int;
    assert(closed.state.transcript.len() == index + 1);
    assert(closed.state.transcript.drop_last() =~= streamed.state.transcript.drop_last());
    assert(closed.state.transcript =~= begun.state.transcript.push(
        MessageView { role: Role::Assistant, content: concat_all(fragments_of(arrivals)) },
    ));
}

/// A reply that begins with a call of a known tool gets one message, the
/// one for the tool's result, and none for text as long as no text comes.
/// The caller is asked to run the tool for that message, and the result,
/// once written, is the whole text of the message.
pub proof fn lemma_tool_reply_has_one_message(
    min_interval: u128,
    state: PromptStateView,
    prompt: Seq<char>,
    name: Seq<char>,
    arguments: Seq<char>,
    call: PendingToolCall,
    value: Seq<char>,
    now: u128,
)
    requires
        state.transcript.len() + 1 < usize::MAX,
        ToolKind::named(name) == Some(call.tool()),
        call.target() == state.transcript.len() + 1,
    ensures
        ({
            let begun = StreamCoordinatorView::idle(min_interval).after_prompt(state, prompt);
            let called = begun.coordinator.after_tool_call(begun.state, name, arguments);
            let closed = called.coordinator.after_drain(called.state, now);
            &&& called.action == Some(
                ActionView::InvokeTool { index: call.target(), kind: call.tool(), arguments },
            )
            &&& closed.coordinator.target is None
            &&& closed.action is None
            &&& closed.state.transcript == state.transcript.push(Message::user_view(prompt)).push(
                Message::placeholder_view(),
            )
            &&& resolved(closed.state, call, Some(value)).transcript == state.transcript.push(
                Message::user_view(prompt),
            ).push(MessageView { role: Role::Assistant, content: call.tool().rendered(value) })
        }),
{
    let begun = StreamCoordinatorView::idle(min_interval).after_prompt(state, prompt);
    let called = begun.coordinator.after_tool_call(begun.state, name, arguments);
    let closed = called.coordinator.after_drain(called.state, now);
    assert(concat_all(Seq::<Seq<char>>::empty()) + Seq::<char>::empty() =~= Seq::<char>::empty());
    assert(Seq::<char>::empty() + call.tool().rendered(value) =~= call.tool().rendered(value));
    assert(resolved(closed.state, call, Some(value)).transcript =~= state.transcript.push(
        Message::user_view(prompt),
    ).push(MessageView { role: Role::Assistant, content: call.tool().rendered(value) }));
}

} // verus!
