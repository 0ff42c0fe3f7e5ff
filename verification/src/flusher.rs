//! Batching of streamed text. Fragments are collected and written to the
//! transcript as one update, no more often than a minimum interval allows, so
//! that the subscriber is not flooded with one event per fragment.

use vstd::prelude::*;
use crate::event::EventView;
use crate::state::{PromptState, PromptStateView};
use crate::store::StoreError;
use crate::text::{concat_all, join, views_of};

verus! {

/// The minimum interval between two timed flushes, in milliseconds, where
/// nothing else is asked for.
pub const DEFAULT_FLUSH_INTERVAL: u128 = 5;

/// Mathematical value of a [`TokenFlusher`].
pub struct TokenFlusherView {
    /// The fragments pushed since the last flush, in order.
    pub pending: Seq<Seq<char>>,
    /// When the buffer was last flushed by the timer, or when the flusher
    /// was started.
    pub last_flush: u128,
    /// A timed flush happens only when more than this has passed.
    pub min_interval: u128,
}

/// A fragment and the time at which it arrived.
pub struct Arrival {
    pub fragment: Seq<char>,
    pub now: u128,
}

impl TokenFlusherView {
    /// After one more fragment.
    pub open spec fn pushed(self, fragment: Seq<char>) -> TokenFlusherView {
        TokenFlusherView { pending: self.pending.push(fragment), ..self }
    }

    /// The text that a flush writes: all pending fragments, joined.
    pub open spec fn span(self) -> Seq<char> {
        concat_all(self.pending)
    }

    /// Whether a timed flush at `now` writes anything: there is something to
    /// write, and more than the minimum interval has passed.
    pub open spec fn due(self, now: u128) -> bool {
        self.pending.len() > 0 && now - self.last_flush > self.min_interval
    }

    /// The flusher after a timed flush was tried at `now`: where it was due,
    /// the buffer is empty and the interval starts anew.
    pub open spec fn timed(self, now: u128) -> TokenFlusherView {
        if self.due(now) {
            TokenFlusherView { pending: Seq::empty(), last_flush: now, ..self }
        } else {
            self
        }
    }

    /// The shared state after a timed flush to the message at `index` was
    /// tried at `now`: where it was due, the buffered text is at the end of
    /// the message and has been published as one update of it.
    pub open spec fn wrote_timed(self, state: PromptStateView, index: usize, now: u128)
        -> PromptStateView {
        if self.due(now) {
            state.updated(index, self.span())
        } else {
            state
        }
    }

    /// The flusher after a forced flush: the buffer is empty, the interval
    /// runs on.
    pub open spec fn emptied(self) -> TokenFlusherView {
        TokenFlusherView { pending: Seq::empty(), ..self }
    }

    /// The shared state after a forced flush to the message at `index`: if
    /// anything was buffered, it is at the end of the message and has been
    /// published as one update of it.
    pub open spec fn wrote_rest(self, state: PromptStateView, index: usize) -> PromptStateView {
        if self.pending.len() > 0 {
            state.updated(index, self.span())
        } else {
            state
        }
    }

    /// The flusher after `arrival` was pushed and a timed flush was tried at
    /// once.
    pub open spec fn took(self, arrival: Arrival) -> TokenFlusherView {
        self.pushed(arrival.fragment).timed(arrival.now)
    }

    /// The shared state after `arrival` was pushed and a timed flush to the
    /// message at `index` was tried at once.
    pub open spec fn wrote(self, state: PromptStateView, index: usize, arrival: Arrival)
        -> PromptStateView {
        self.pushed(arrival.fragment).wrote_timed(state, index, arrival.now)
    }
}

/// Collects fragments of streamed text between flushes.
pub struct TokenFlusher {
    buffer: Vec<String>,
    last_flush: u128,
    min_interval: u128,
}

impl View for TokenFlusher {
    type V = TokenFlusherView;

    closed spec fn view(&self) -> TokenFlusherView {
        TokenFlusherView {
            pending: views_of(self.buffer@),
            last_flush: self.last_flush,
            min_interval: self.min_interval,
        }
    }
}

impl TokenFlusher {
    /// An empty flusher whose interval starts at `now`.
    pub fn new(now: u128, min_interval: u128) -> (flusher: TokenFlusher)
        ensures
            flusher@ == (TokenFlusherView { pending: Seq::empty(), last_flush: now, min_interval }),
    {
        let flusher = TokenFlusher { buffer: Vec::new(), last_flush: now, min_interval };
        assert(flusher@.pending =~= Seq::<Seq<char>>::empty());
        flusher
    }

    /// Starts the interval anew at `now`, keeping what is buffered.
    pub fn restart(&mut self, now: u128)
        ensures
            final(self)@ == (TokenFlusherView { last_flush: now, ..old(self)@ }),
    {
        self.last_flush = now;
    }

    /// Adds `fragment` to the buffer.
    pub fn push(&mut self, fragment: String)
        ensures
            final(self)@ == old(self)@.pushed(fragment@),
    {
        self.buffer.push(fragment);
        assert(self@.pending =~= old(self)@.pending.push(fragment@));
    }

    /// Whether a timed flush at `now` would write anything.
    pub fn is_due(&self, now: u128) -> (due: bool)
        ensures
            due == self@.due(now),
    {
        self.buffer.len() > 0 && now > self.last_flush && now - self.last_flush > self.min_interval
    }

    /// Flushes if there is something buffered and more than the minimum
    /// interval has passed since the last timed flush: the buffered text is
    /// added to the message at `index`, published as one update of that
    /// message, and the interval starts anew. Returns whether it flushed.
    /// Where a flush is due and there is no message at `index`, nothing
    /// changes.
    pub fn maybe_flush(
        &mut self,
        state: &mut PromptState,
        index: usize,
        now: u128,
    ) -> (outcome: Result<bool, StoreError>)
        requires
            old(state).wf(),
        ensures
            final(state).wf(),
            old(self)@.due(now) && index >= old(state)@.transcript.len() ==> ({
                &&& outcome == Err::<bool, StoreError>(StoreError::InvalidIndex)
                &&& final(self)@ == old(self)@
                &&& final(state)@ == old(state)@
            }),
            !(old(self)@.due(now) && index >= old(state)@.transcript.len()) ==> ({
                &&& outcome == Ok::<bool, StoreError>(old(self)@.due(now))
                &&& final(self)@ == old(self)@.timed(now)
                &&& final(state)@ == old(self)@.wrote_timed(old(state)@, index, now)
            }),
    {
        if !self.is_due(now) {
            return Ok(false);
        }
        match state.update_message(index, join(&self.buffer)) {
            Err(error) => Err(error),
            Ok(()) => {
                self.buffer.clear();
                self.last_flush = now;
                assert(self@.pending =~= Seq::<Seq<char>>::empty());
                Ok(true)
            },
        }
    }

    /// Flushes whatever is buffered, however little time has passed. With
    /// nothing buffered, nothing is written or published. Returns whether it
    /// flushed. Where something is buffered and there is no message at
    /// `index`, nothing changes.
    pub fn force_flush(&mut self, state: &mut PromptState, index: usize) -> (outcome: Result<
        bool,
        StoreError,
    >)
        requires
            old(state).wf(),
        ensures
            final(state).wf(),
            old(self)@.pending.len() > 0 && index >= old(state)@.transcript.len() ==> ({
                &&& outcome == Err::<bool, StoreError>(StoreError::InvalidIndex)
                &&& final(self)@ == old(self)@
                &&& final(state)@ == old(state)@
            }),
            !(old(self)@.pending.len() > 0 && index >= old(state)@.transcript.len()) ==> ({
                &&& outcome == Ok::<bool, StoreError>(old(self)@.pending.len() > 0)
                &&& final(self)@ == old(self)@.emptied()
                &&& final(state)@ == old(self)@.wrote_rest(old(state)@, index)
            }),
    {
        if self.buffer.len() == 0 {
            assert(self@.pending =~= Seq::<Seq<char>>::empty());
            return Ok(false);
        }
        match state.update_message(index, join(&self.buffer)) {
            Err(error) => Err(error),
            Ok(()) => {
                self.buffer.clear();
                assert(self@.pending =~= Seq::<Seq<char>>::empty());
                Ok(true)
            },
        }
    }
}

impl TokenFlusherView {
    /// The flusher after each of `arrivals` was pushed, with a timed flush
    /// tried after every push.
    pub open spec fn took_all(self, arrivals: Seq<Arrival>) -> TokenFlusherView
        decreases arrivals.len(),
    {
        if arrivals.len() == 0 {
            self
        } else {
            self.took_all(arrivals.drop_last()).took(arrivals.last())
        }
    }

    /// The shared state after each of `arrivals` was pushed, with a timed
    /// flush to the message at `index` tried after every push.
    pub open spec fn wrote_all(self, state: PromptStateView, index: usize, arrivals: Seq<Arrival>)
        -> PromptStateView
        decreases arrivals.len(),
    {
        if arrivals.len() == 0 {
            state
        } else {
            self.took_all(arrivals.drop_last()).wrote(
                self.wrote_all(state, index, arrivals.drop_last()),
                index,
                arrivals.last(),
            )
        }
    }

    /// How many of `arrivals` were followed by a timed flush.
    pub open spec fn timed_flushes(self, arrivals: Seq<Arrival>) -> nat
        decreases arrivals.len(),
    {
        if arrivals.len() == 0 {
            0
        } else {
            let before = self.took_all(arrivals.drop_last());
            let flushed: nat = if before.pushed(arrivals.last().fragment).due(arrivals.last().now) {
                1
            } else {
                0
            };
            self.timed_flushes(arrivals.drop_last()) + flushed
        }
    }

    /// Fragments come faster than the flush interval: none comes more than
    /// the minimum interval after the one before it, the first none more
    /// than that after the interval was started.
    pub open spec fn outpaced_by(self, arrivals: Seq<Arrival>) -> bool {
        forall|k: int|
            0 <= k < arrivals.len() ==> (#[trigger] arrivals[k]).now - (if k == 0 {
                self.last_flush
            } else {
                arrivals[k - 1].now
            }) <= self.min_interval
    }

    /// The flusher after each of `fragments` was pushed, with no flush in
    /// between.
    pub open spec fn pushed_all(self, fragments: Seq<Seq<char>>) -> TokenFlusherView
        decreases fragments.len(),
    {
        if fragments.len() == 0 {
            self
        } else {
            self.pushed_all(fragments.drop_last()).pushed(fragments.last())
        }
    }
}

/// How many updates of the message at `index` are in `log`.
pub open spec fn updates_of(log: Seq<EventView>, index: usize) -> nat
    decreases log.len(),
{
    if log.len() == 0 {
        0
    } else {
        let last: nat = if log.last() matches EventView::UpdateMessage { index: at, .. } && at
            == index {
            1
        } else {
            0
        };
        updates_of(log.drop_last(), index) + last
    }
}

/// One more event adds one to the count of updates if it is an update of
/// that message, and nothing otherwise.
proof fn lemma_updates_of_push(log: Seq<EventView>, event: EventView, index: usize)
    ensures
        updates_of(log.push(event), index) == updates_of(log, index) + (if event
            matches EventView::UpdateMessage { index: at, .. } && at == index {
            1nat
        } else {
            0nat
        }),
{
    assert(log.push(event).drop_last() == log);
}

/// Every timed flush publishes exactly one update of the message, and
/// nothing else does.
proof fn lemma_one_update_per_flush(
    flusher: TokenFlusherView,
    state: PromptStateView,
    index: usize,
    arrivals: Seq<Arrival>,
)
    ensures
        updates_of(flusher.wrote_all(state, index, arrivals).published, index) == updates_of(
            state.published,
            index,
        ) + flusher.timed_flushes(arrivals),
    decreases arrivals.len(),
{
    if arrivals.len() > 0 {
        let earlier = arrivals.drop_last();
        lemma_one_update_per_flush(flusher, state, index, earlier);
        let pushed = flusher.took_all(earlier).pushed(arrivals.last().fragment);
        lemma_updates_of_push(
            flusher.wrote_all(state, index, earlier).published,
            EventView::UpdateMessage { index, span: pushed.span() },
            index,
        );
    }
}

/// A timed flush never follows another at the very next fragment, so at most
/// every second fragment is followed by one.
proof fn lemma_flushes_are_spaced(flusher: TokenFlusherView, arrivals: Seq<Arrival>)
    requires
        flusher.outpaced_by(arrivals),
    ensures
        flusher.took_all(arrivals).min_interval == flusher.min_interval,
        arrivals.len() == 0 ==> flusher.took_all(arrivals) == flusher,
        arrivals.len() > 0 && flusher.took_all(arrivals).pending.len() == 0 ==> ({
            &&& flusher.took_all(arrivals).last_flush == arrivals.last().now
            &&& 2 * flusher.timed_flushes(arrivals) <= arrivals.len()
        }),
        arrivals.len() > 0 && flusher.took_all(arrivals).pending.len() > 0 ==> 2
            * flusher.timed_flushes(arrivals) + 1 <= arrivals.len(),
    decreases arrivals.len(),
{
    if arrivals.len() > 0 {
        let earlier = arrivals.drop_last();
        assert forall|k: int| 0 <= k < earlier.len() implies (#[trigger] earlier[k]).now - (if k
            == 0 {
            flusher.last_flush
        } else {
            earlier[k - 1].now
        }) <= flusher.min_interval by {
            assert(earlier[k] == arrivals[k]);
            if k > 0 {
                assert(earlier[k - 1] == arrivals[k - 1]);
            }
        }
        lemma_flushes_are_spaced(flusher, earlier);
        let last = arrivals.len() - 1;
        assert(arrivals[last] == arrivals.last());
        if earlier.len() > 0 {
            assert(earlier.last() == arrivals[last - 1]);
        }
    }
}

/// Where fragments come faster than the flush interval, fewer updates of the
/// message are published than fragments are pushed. Timed flushes alone stay
/// below the number of pushes for any series of at least one fragment;
/// together with the forced flush that closes the series they stay below it
/// for any series of at least two.
pub proof fn lemma_fewer_updates_than_pushes(
    flusher: TokenFlusherView,
    state: PromptStateView,
    index: usize,
    arrivals: Seq<Arrival>,
)
    requires
        flusher.outpaced_by(arrivals),
        arrivals.len() >= 1,
    ensures
        updates_of(flusher.wrote_all(state, index, arrivals).published, index) < updates_of(
            state.published,
            index,
        ) + arrivals.len(),
        arrivals.len() >= 2 ==> updates_of(
            flusher.took_all(arrivals).wrote_rest(
                flusher.wrote_all(state, index, arrivals),
                index,
            ).published,
            index,
        ) < updates_of(state.published, index) + arrivals.len(),
{
    lemma_flushes_are_spaced(flusher, arrivals);
    lemma_one_update_per_flush(flusher, state, index, arrivals);
    lemma_updates_of_push(
        flusher.wrote_all(state, index, arrivals).published,
        EventView::UpdateMessage { index, span: flusher.took_all(arrivals).span() },
        index,
    );
}

/// Pushing keeps the fragments in order behind what was pending.
pub proof fn lemma_pushed_all(flusher: TokenFlusherView, fragments: Seq<Seq<char>>)
    ensures
        flusher.pushed_all(fragments) == (TokenFlusherView {
            pending: flusher.pending + fragments,
            ..flusher
        }),
    decreases fragments.len(),
{
    if fragments.len() > 0 {
        lemma_pushed_all(flusher, fragments.drop_last());
        assert(fragments.drop_last().push(fragments.last()) == fragments);
        assert(flusher.pushed_all(fragments).pending =~= flusher.pending + fragments);
    } else {
        assert(flusher.pending + fragments =~= flusher.pending);
    }
}

/// A forced flush after any number of pushes, at least one, with no flush
/// between them, publishes exactly one update, and the update carries all
/// the pushed fragments joined in the order of the pushes.
pub proof fn lemma_forced_flush_publishes_everything_once(
    flusher: TokenFlusherView,
    fragments: Seq<Seq<char>>,
    state: PromptStateView,
    index: usize,
)
    requires
        flusher.pending.len() == 0,
        fragments.len() >= 1,
    ensures
        flusher.pushed_all(fragments).wrote_rest(state, index).published == state.published.push(
            EventView::UpdateMessage { index, span: concat_all(fragments) },
        ),
        updates_of(flusher.pushed_all(fragments).wrote_rest(state, index).published, index)
            == updates_of(state.published, index) + 1,
        flusher.pushed_all(fragments).emptied().pending.len() == 0,
{
    lemma_pushed_all(flusher, fragments);
    assert(flusher.pending + fragments =~= fragments);
    lemma_updates_of_push(
        state.published,
        EventView::UpdateMessage { index, span: concat_all(fragments) },
        index,
    );
}

} // verus!
