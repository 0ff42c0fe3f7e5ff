//! Grouping of streamed text into spans for speech synthesis. The first span
//! is one sentence long, so that speech starts early; each later span needs
//! one sentence more than the one before, so that a long reply does not turn
//! into a long series of small requests.

use vstd::prelude::*;
use crate::text::{concat_all, join, last_char, lemma_concat_all_push, text_view, views_of};

verus! {

/// Whether `c` ends a sentence.
pub open spec fn is_terminal(c: char) -> bool {
    c == '.' || c == '!' || c == '?'
}

/// Whether a sentence ends with `fragment`: its last character is a full
/// stop, an exclamation mark or a question mark.
pub open spec fn ends_sentence(fragment: Seq<char>) -> bool {
    fragment.len() > 0 && is_terminal(fragment.last())
}

/// Mathematical value of a [`SentenceAccumulator`].
pub struct SentenceAccumulatorView {
    /// The sentences completed since the last span was handed out.
    pub completed: Seq<Seq<char>>,
    /// The text of the sentence that has not ended yet.
    pub current: Seq<char>,
    /// How many completed sentences the next span needs.
    pub threshold: u128,
}

impl SentenceAccumulatorView {
    /// Nothing fed in yet; the first span needs one sentence.
    pub open spec fn fresh() -> SentenceAccumulatorView {
        SentenceAccumulatorView { completed: Seq::empty(), current: Seq::empty(), threshold: 1 }
    }

    /// The accumulator after `fragment` was fed in.
    pub open spec fn fed(self, fragment: Seq<char>) -> SentenceAccumulatorView {
        if ends_sentence(fragment) {
            SentenceAccumulatorView {
                completed: self.completed.push(self.current + fragment),
                current: Seq::empty(),
                ..self
            }
        } else {
            SentenceAccumulatorView { current: self.current + fragment, ..self }
        }
    }

    /// Whether enough sentences are complete for the next span.
    pub open spec fn ready(self) -> bool {
        self.completed.len() >= self.threshold
    }

    /// The span that is handed out when one is asked for: the completed
    /// sentences, joined, once there are enough of them.
    pub open spec fn offered(self) -> Option<Seq<char>> {
        if self.ready() {
            Some(concat_all(self.completed))
        } else {
            None
        }
    }

    /// The accumulator after a span was asked for: where one was handed out,
    /// no sentence is left and the threshold is one higher.
    pub open spec fn asked(self) -> SentenceAccumulatorView {
        if self.ready() {
            SentenceAccumulatorView {
                completed: Seq::empty(),
                threshold: (self.threshold + 1) as u128,
                ..self
            }
        } else {
            self
        }
    }

    /// Everything that was fed in and not handed out yet.
    pub open spec fn remainder(self) -> Seq<char> {
        concat_all(self.completed) + self.current
    }

    /// The span that is handed out at the end: the remainder, if there is
    /// any.
    pub open spec fn offered_at_end(self) -> Option<Seq<char>> {
        if self.remainder().len() > 0 {
            Some(self.remainder())
        } else {
            None
        }
    }

    /// The accumulator after the remainder was asked for: nothing is left.
    pub open spec fn drained(self) -> SentenceAccumulatorView {
        SentenceAccumulatorView { completed: Seq::empty(), current: Seq::empty(), ..self }
    }
}

/// Collects sentences until there are enough of them for the next span. The
/// threshold is kept in a type wider than any count of sentences, so that
/// raising it cannot overflow.
pub struct SentenceAccumulator {
    completed: Vec<String>,
    current: String,
    threshold: u128,
}

impl View for SentenceAccumulator {
    type V = SentenceAccumulatorView;

    closed spec fn view(&self) -> SentenceAccumulatorView {
        SentenceAccumulatorView {
            completed: views_of(self.completed@),
            current: self.current@,
            threshold: self.threshold,
        }
    }
}

/// Whether a sentence ends with `fragment`.
pub fn fragment_ends_sentence(fragment: &str) -> (ends: bool)
    ensures
        ends == ends_sentence(fragment@),
{
    match last_char(fragment) {
        None => false,
        Some(c) => c == '.' || c == '!' || c == '?',
    }
}

impl SentenceAccumulator {
    /// Nothing fed in yet; the first span needs one sentence.
    pub fn new() -> (accumulator: SentenceAccumulator)
        ensures
            accumulator@ == SentenceAccumulatorView::fresh(),
    {
        let accumulator = SentenceAccumulator {
            completed: Vec::new(),
            current: String::new(),
            threshold: 1,
        };
        assert(accumulator@.completed =~= Seq::<Seq<char>>::empty());
        accumulator
    }

    /// Adds `fragment` to the sentence in progress; if the fragment ends the
    /// sentence, the sentence counts as completed.
    pub fn on_fragment(&mut self, fragment: &str)
        ensures
            final(self)@ == old(self)@.fed(fragment@),
    {
        self.current.append(fragment);
        if fragment_ends_sentence(fragment) {
            let mut sentence = String::new();
            std::mem::swap(&mut self.current, &mut sentence);
            self.completed.push(sentence);
            assert(self@.completed =~= old(self)@.completed.push(old(self)@.current + fragment@));
        }
    }

    /// The number of sentences completed since the last span.
    pub fn completed_sentences(&self) -> (count: usize)
        ensures
            count == self@.completed.len(),
    {
        self.completed.len()
    }

    /// How many completed sentences the next span needs.
    pub fn threshold(&self) -> (threshold: u128)
        ensures
            threshold == self@.threshold,
    {
        self.threshold
    }

    /// Once as many sentences are complete as the threshold asks for, hands
    /// them out as one span and raises the threshold by one. Before that,
    /// hands out nothing and changes nothing.
    pub fn maybe_dispatch(&mut self) -> (span: Option<String>)
        ensures
            text_view(span) == old(self)@.offered(),
            final(self)@ == old(self)@.asked(),
    {
        if (self.completed.len() as u128) < self.threshold {
            return None;
        }
        let text = join(&self.completed);
        self.completed.clear();
        self.threshold = self.threshold + 1;
        assert(self@.completed =~= Seq::<Seq<char>>::empty());
        Some(text)
    }

    /// Hands out whatever was fed in and not handed out yet, however few
    /// sentences that is, whether or not the last one has ended. With nothing
    /// left there is no span. The threshold stays as it is.
    pub fn flush_remainder(&mut self) -> (span: Option<String>)
        ensures
            text_view(span) == old(self)@.offered_at_end(),
            final(self)@ == old(self)@.drained(),
    {
        let mut text = join(&self.completed);
        text.append(self.current.as_str());
        self.completed.clear();
        self.current = String::new();
        assert(self@.completed =~= Seq::<Seq<char>>::empty());
        if text.as_str().is_empty() {
            None
        } else {
            Some(text)
        }
    }
}

/// Nothing that is fed in gets lost: what is left to hand out after a
/// fragment is what was left before, and the fragment.
pub proof fn lemma_fed_text_is_kept(state: SentenceAccumulatorView, fragment: Seq<char>)
    ensures
        state.fed(fragment).remainder() == state.remainder() + fragment,
{
    if ends_sentence(fragment) {
        lemma_concat_all_push(state.completed, state.current + fragment);
    }
    assert(state.fed(fragment).remainder() =~= state.remainder() + fragment);
}

/// One sentence fed to a fresh accumulator is handed out at once, as it is,
/// and the next span needs two sentences.
pub proof fn lemma_first_sentence_is_dispatched(sentence: Seq<char>)
    requires
        ends_sentence(sentence),
    ensures
        SentenceAccumulatorView::fresh().fed(sentence).offered() == Some(sentence),
        SentenceAccumulatorView::fresh().fed(sentence).asked().threshold == 2,
        SentenceAccumulatorView::fresh().fed(sentence).asked().remainder().len() == 0,
{
    let fed = SentenceAccumulatorView::fresh().fed(sentence);
    assert(fed.completed =~= seq![sentence]);
    lemma_concat_all_push(Seq::empty(), sentence);
    assert(Seq::<Seq<char>>::empty().push(sentence) =~= seq![sentence]);
    assert(concat_all(Seq::<Seq<char>>::empty()) + sentence =~= sentence);
}

/// After the first span, one more sentence is not enough for the next span;
/// the sentence after that is, and the span then holds both.
pub proof fn lemma_second_span_needs_two_sentences(
    first: Seq<char>,
    second: Seq<char>,
    third: Seq<char>,
)
    requires
        ends_sentence(first),
        ends_sentence(second),
        ends_sentence(third),
    ensures
        SentenceAccumulatorView::fresh().fed(first).asked().fed(second).offered() is None,
        SentenceAccumulatorView::fresh().fed(first).asked().fed(second).asked().fed(
            third,
        ).offered() == Some(second + third),
        SentenceAccumulatorView::fresh().fed(first).asked().fed(second).asked().fed(
            third,
        ).asked().threshold == 3,
{
    let start = SentenceAccumulatorView::fresh().fed(first).asked();
    let one = start.fed(second);
    let two = one.asked().fed(third);
    assert(one.completed =~= seq![second]);
    assert(two.completed =~= seq![second, third]);
    lemma_concat_all_push(Seq::empty(), second);
    lemma_concat_all_push(seq![second], third);
    assert(Seq::<Seq<char>>::empty().push(second) =~= seq![second]);
    assert(seq![second].push(third) =~= seq![second, third]);
    assert(concat_all(Seq::<Seq<char>>::empty()) + second + third =~= second + third);
}

/// Where a span is asked for after every fragment, a span is handed out
/// exactly when the fragment completes the sentence that the threshold was
/// waiting for; the span then holds exactly as many sentences as the
/// threshold says, and the next span needs one sentence more.
pub proof fn lemma_span_holds_threshold_sentences(
    state: SentenceAccumulatorView,
    fragment: Seq<char>,
)
    requires
        state.completed.len() < state.threshold,
        state.threshold < u128::MAX,
    ensures
        state.fed(fragment).ready() <==> ends_sentence(fragment) && state.completed.len() + 1
            == state.threshold,
        state.fed(fragment).ready() ==> ({
            &&& state.fed(fragment).completed.len() == state.threshold
            &&& state.fed(fragment).asked().threshold == state.threshold + 1
        }),
        state.fed(fragment).asked().completed.len() < state.fed(fragment).asked().threshold,
{
}

/// A fragment that does not end its sentence is still handed out when the
/// remainder is flushed.
pub proof fn lemma_trailing_fragment_is_flushed(state: SentenceAccumulatorView, fragment: Seq<char>)
    requires
        fragment.len() > 0,
        !ends_sentence(fragment),
    ensures
        state.fed(fragment).offered_at_end() == Some(state.remainder() + fragment),
        state.fed(fragment).drained().remainder().len() == 0,
{
    lemma_fed_text_is_kept(state, fragment);
    assert(concat_all(Seq::<Seq<char>>::empty()) + Seq::<char>::empty() =~= Seq::<char>::empty());
}

} // verus!
