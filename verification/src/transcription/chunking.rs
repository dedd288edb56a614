//! How captured audio is divided into chunks does not matter to a batch.

use vstd::prelude::*;

use crate::audio::capture::SAMPLE_RATE;
use crate::audio::gate::is_gated;
use crate::transcription::chunked_batch::{
    BatchError, BatchEvent, BatchState, MIN_REQUEST_MS,
};
use crate::transcription::laws::{
    heard, is_run, law_all_audio_is_kept, law_run_valid, run_pieces, run_state,
};
use crate::transcription::reply::accepted_text;
use crate::transcription::split::{law_only_window_decides, window_start};

verus! {

/// How a request ended.
pub enum Outcome<E> {
    /// It returned this text.
    Text(Seq<char>),
    /// It took too long.
    TimedOut,
    /// It failed.
    Failed(E),
}

/// The event tells this outcome.
pub open spec fn tells<E>(event: BatchEvent<E>, outcome: Outcome<E>) -> bool {
    match event {
        BatchEvent::Chunk(_) | BatchEvent::Closed => false,
        BatchEvent::Reply(text) => outcome == Outcome::<E>::Text(text@),
        BatchEvent::TimedOut => outcome == Outcome::<E>::TimedOut,
        BatchEvent::Failed(error) => outcome == Outcome::<E>::Failed(error),
    }
}

/// Every request of the run ended as `backend` says for the sample at which its
/// audio begins and for that audio.
pub open spec fn answered_by<E>(
    seconds: u64,
    prompt: Option<Seq<char>>,
    events: Seq<BatchEvent<E>>,
    backend: spec_fn(int, Seq<i16>) -> Outcome<E>,
) -> bool
    decreases events.len(),
{
    events.len() > 0 ==> {
        let before = run_state(seconds, prompt, events.drop_last());
        &&& answered_by(seconds, prompt, events.drop_last(), backend)
        &&& before.in_flight matches Some(end) ==> tells(
            events.last(),
            backend(before.offset, before.piece(end)),
        )
    }
}

impl<E> BatchState<E> {
    /// The batch after its request in flight has ended like this, before it deals
    /// with what is due.
    pub open spec fn answered(self, outcome: Outcome<E>) -> Self {
        match outcome {
            Outcome::Text(text) => {
                let kept = accepted_text(text, self.prompt);
                BatchState {
                    parts: if kept.len() > 0 {
                        self.parts.push(kept)
                    } else {
                        self.parts
                    },
                    ..self.landed()
                }
            },
            Outcome::TimedOut => BatchState {
                failure: Some(BatchError::TimedOut),
                ..self.landed()
            },
            Outcome::Failed(error) => BatchState {
                failure: Some(BatchError::Request(error)),
                ..self.landed()
            },
        }
    }

    /// The batch once its request in flight, if there is one, has ended.
    pub open spec fn resumed(self, backend: spec_fn(int, Seq<i16>) -> Outcome<E>) -> Self {
        match self.in_flight {
            Some(end) => self.answered(backend(self.offset, self.piece(end))),
            None => self,
        }
    }

    /// The batch after the piece up to `end` was passed over, or sent and
    /// answered.
    pub open spec fn past(
        self,
        end: int,
        backend: spec_fn(int, Seq<i16>) -> Outcome<E>,
    ) -> Self {
        if is_gated(self.piece(end), SAMPLE_RATE, MIN_REQUEST_MS) {
            BatchState { offset: end, ..self }
        } else {
            (BatchState { in_flight: Some(end), ..self }).resumed(backend)
        }
    }

    /// The batch once nothing is due any more.
    pub open spec fn completed(self, backend: spec_fn(int, Seq<i16>) -> Outcome<E>) -> Self
        decreases self.samples.len() - self.offset,
        when self.in_bounds()
        via Self::completed_decreases
    {
        match self.next_cut() {
            Some(end) => self.past(end, backend).completed(backend),
            None => self,
        }
    }

    #[via_fn]
    proof fn completed_decreases(self, backend: spec_fn(int, Seq<i16>) -> Outcome<E>) {
        self.lemma_next_cut();
    }

    /// The pieces that the batch takes up until nothing is due any more.
    pub open spec fn pieces_left(
        self,
        backend: spec_fn(int, Seq<i16>) -> Outcome<E>,
    ) -> Seq<(int, int)>
        decreases self.samples.len() - self.offset,
        when self.in_bounds()
        via Self::pieces_left_decreases
    {
        match self.next_cut() {
            Some(end) => seq![(self.offset, end)] + self.past(end, backend).pieces_left(backend),
            None => Seq::empty(),
        }
    }

    #[via_fn]
    proof fn pieces_left_decreases(self, backend: spec_fn(int, Seq<i16>) -> Outcome<E>) {
        self.lemma_next_cut();
    }

    /// The batch with nothing in flight, as if it had heard all of this audio and
    /// capture had stopped.
    pub open spec fn with_all(self, audio: Seq<i16>) -> Self {
        BatchState { samples: audio, closed: true, in_flight: None, ..self }
    }

    /// What the batch has heard is how the audio begins, and all of it once
    /// capture has stopped.
    pub open spec fn hears(self, audio: Seq<i16>) -> bool {
        &&& self.samples.is_prefix_of(audio)
        &&& self.closed ==> self.samples == audio
    }

    /// A piece that is due stays the same, however much audio follows.
    proof fn lemma_cut_stays(self, audio: Seq<i16>)
        requires
            self.in_bounds(),
            self.hears(audio),
        ensures
            self.next_cut() matches Some(end) ==> {
                &&& self.with_all(audio).next_cut() == Some(end)
                &&& self.with_all(audio).piece(end) == self.piece(end)
            },
    {
        let all = self.with_all(audio);
        self.lemma_next_cut();
        if self.pending().len() >= self.limit {
            assert forall|i: int| 0 <= i < self.limit implies self.pending()[i]
                == #[trigger] all.pending()[i] by {
                assert(self.samples[self.offset + i] == audio[self.offset + i]);
            }
            assert(self.pending().subrange(window_start(self.limit), self.limit)
                =~= all.pending().subrange(window_start(self.limit), self.limit));
            law_only_window_decides(self.pending(), all.pending(), self.limit);
        }
        if let Some(end) = self.next_cut() {
            assert forall|i: int| 0 <= i < end - self.offset implies self.piece(end)[i]
                == #[trigger] all.piece(end)[i] by {
                assert(self.samples[self.offset + i] == audio[self.offset + i]);
            }
            assert(all.piece(end) =~= self.piece(end));
        }
    }

    /// Dealing with what is due, as far as the audio has been heard, is a part of
    /// dealing with all audio.
    proof fn lemma_settled_on_the_way(
        self,
        audio: Seq<i16>,
        backend: spec_fn(int, Seq<i16>) -> Outcome<E>,
    )
        requires
            self.in_bounds(),
            self.in_flight is None,
            self.hears(audio),
        ensures
            self.with_all(audio).completed(backend) == self.settled().resumed(backend).with_all(
                audio,
            ).completed(backend),
            self.with_all(audio).pieces_left(backend) == self.pieces()
                + self.settled().resumed(backend).with_all(audio).pieces_left(backend),
        decreases self.samples.len() - self.offset,
    {
        let all = self.with_all(audio);
        self.lemma_next_cut();
        self.lemma_cut_stays(audio);
        match self.next_cut() {
            Some(end) => {
                let first = seq![(self.offset, end)];
                if is_gated(self.piece(end), SAMPLE_RATE, MIN_REQUEST_MS) {
                    let next = BatchState { offset: end, ..self };
                    assert(all.past(end, backend) == next.with_all(audio));
                    next.lemma_settled_on_the_way(audio, backend);
                    let rest = next.settled().resumed(backend).with_all(audio).pieces_left(
                        backend,
                    );
                    assert(first + (next.pieces() + rest) =~= (first + next.pieces()) + rest);
                } else {
                    let sent = BatchState { in_flight: Some(end), ..self };
                    assert(sent.piece(end) == self.piece(end));
                    assert((BatchState { in_flight: Some(end), ..all }).piece(end) == all.piece(
                        end,
                    ));
                    assert(all.past(end, backend) == sent.resumed(backend).with_all(audio));
                }
            },
            None => {
                assert(self.pieces() =~= Seq::empty());
                assert(Seq::empty() + all.pieces_left(backend) =~= all.pieces_left(backend));
            },
        }
    }
}

/// A run, as far as it has come, is a part of dealing with all audio at once.
proof fn lemma_run_on_the_way<E>(
    seconds: u64,
    prompt: Option<Seq<char>>,
    events: Seq<BatchEvent<E>>,
    audio: Seq<i16>,
    backend: spec_fn(int, Seq<i16>) -> Outcome<E>,
)
    requires
        is_run(seconds, prompt, events),
        answered_by(seconds, prompt, events, backend),
        run_state(seconds, prompt, events).hears(audio),
    ensures
        BatchState::initial(seconds, prompt).with_all(audio).completed(backend) == run_state(
            seconds,
            prompt,
            events,
        ).resumed(backend).with_all(audio).completed(backend),
        BatchState::initial(seconds, prompt).with_all(audio).pieces_left(backend) == run_pieces(
            seconds,
            prompt,
            events,
        ) + run_state(seconds, prompt, events).resumed(backend).with_all(audio).pieces_left(
            backend,
        ),
    decreases events.len(),
{
    let state = run_state(seconds, prompt, events);
    if events.len() == 0 {
        let left = state.with_all(audio).pieces_left(backend);
        assert(run_pieces(seconds, prompt, events) + left =~= left);
    } else {
        let earlier = events.drop_last();
        let before = run_state(seconds, prompt, earlier);
        let noted = before.noted(events.last());
        law_run_valid(seconds, prompt, earlier);
        noted.lemma_settled();
        assert forall|i: int| 0 <= i < before.samples.len() implies before.samples[i]
            == #[trigger] audio[i] by {
            assert(before.samples[i] == noted.samples[i]);
        }
        assert(before.samples.is_prefix_of(audio));
        lemma_run_on_the_way(seconds, prompt, earlier, audio, backend);
        assert(noted.with_all(audio) == before.resumed(backend).with_all(audio));
        noted.lemma_settled_on_the_way(audio, backend);
        let pieces = run_pieces(seconds, prompt, earlier);
        let left = state.resumed(backend).with_all(audio).pieces_left(backend);
        assert((pieces + noted.pieces()) + left =~= pieces + (noted.pieces() + left));
    }
}

/// How the audio is divided into chunks, and when they come, does not matter: two
/// finished runs over the same audio, whose requests end alike, take up the same
/// pieces, send the same requests and come to the same result.
pub proof fn law_chunks_do_not_matter<E>(
    seconds: u64,
    prompt: Option<Seq<char>>,
    a: Seq<BatchEvent<E>>,
    b: Seq<BatchEvent<E>>,
    backend: spec_fn(int, Seq<i16>) -> Outcome<E>,
)
    requires
        is_run(seconds, prompt, a),
        is_run(seconds, prompt, b),
        answered_by(seconds, prompt, a, backend),
        answered_by(seconds, prompt, b, backend),
        heard(a) == heard(b),
        run_state(seconds, prompt, a).closed,
        run_state(seconds, prompt, a).in_flight is None,
        run_state(seconds, prompt, b).closed,
        run_state(seconds, prompt, b).in_flight is None,
    ensures
        run_pieces(seconds, prompt, a) == run_pieces(seconds, prompt, b),
        run_state(seconds, prompt, a) == run_state(seconds, prompt, b),
{
    lemma_finished_run(seconds, prompt, a, backend);
    lemma_finished_run(seconds, prompt, b, backend);
}

/// A finished run has dealt with all its audio as if it had heard it at once.
proof fn lemma_finished_run<E>(
    seconds: u64,
    prompt: Option<Seq<char>>,
    events: Seq<BatchEvent<E>>,
    backend: spec_fn(int, Seq<i16>) -> Outcome<E>,
)
    requires
        is_run(seconds, prompt, events),
        answered_by(seconds, prompt, events, backend),
        run_state(seconds, prompt, events).closed,
        run_state(seconds, prompt, events).in_flight is None,
    ensures
        run_state(seconds, prompt, events) == BatchState::initial(seconds, prompt).with_all(
            heard(events),
        ).completed(backend),
        run_pieces(seconds, prompt, events) == BatchState::initial(seconds, prompt).with_all(
            heard(events),
        ).pieces_left(backend),
{
    let state = run_state(seconds, prompt, events);
    let pieces = run_pieces(seconds, prompt, events);
    law_run_valid(seconds, prompt, events);
    law_all_audio_is_kept(seconds, prompt, events);
    assert(state.samples.is_prefix_of(state.samples));
    lemma_run_on_the_way(seconds, prompt, events, heard(events), backend);
    assert(state.with_all(heard(events)) == state);
    assert(pieces + state.pieces_left(backend) =~= pieces);
}

} // verus!
