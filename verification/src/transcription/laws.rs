//! What holds of every run of a batch, from its start through any events.

use vstd::prelude::*;

use crate::audio::capture::SAMPLE_RATE;
use crate::audio::gate::{duration_ms, is_gated, is_within, law_quiet_levels};
use crate::transcription::chunked_batch::{
    limit_for, BatchError, BatchEvent, BatchState, MIN_REQUEST_MS,
};
use crate::transcription::reply::accepted_text;

verus! {

/// The batch after these events, in this order.
pub open spec fn run_state<E>(
    seconds: u64,
    prompt: Option<Seq<char>>,
    events: Seq<BatchEvent<E>>,
) -> BatchState<E>
    decreases events.len(),
{
    if events.len() == 0 {
        BatchState::initial(seconds, prompt)
    } else {
        run_state(seconds, prompt, events.drop_last()).after(events.last())
    }
}

/// Every event is one that the batch expects when it happens.
pub open spec fn is_run<E>(
    seconds: u64,
    prompt: Option<Seq<char>>,
    events: Seq<BatchEvent<E>>,
) -> bool
    decreases events.len(),
{
    events.len() > 0 ==> {
        &&& is_run(seconds, prompt, events.drop_last())
        &&& run_state(seconds, prompt, events.drop_last()).expects(events.last())
    }
}

/// The audio that the chunks among the events hold, in order.
pub open spec fn heard<E>(events: Seq<BatchEvent<E>>) -> Seq<i16>
    decreases events.len(),
{
    if events.len() == 0 {
        Seq::empty()
    } else {
        match events.last() {
            BatchEvent::Chunk(chunk) => heard(events.drop_last()) + chunk@,
            _ => heard(events.drop_last()),
        }
    }
}

/// What the replies among the events add to the transcript, in order; replies of
/// which nothing is kept add nothing.
pub open spec fn kept_replies<E>(
    prompt: Option<Seq<char>>,
    events: Seq<BatchEvent<E>>,
) -> Seq<Seq<char>>
    decreases events.len(),
{
    if events.len() == 0 {
        Seq::empty()
    } else {
        let earlier = kept_replies(prompt, events.drop_last());
        match events.last() {
            BatchEvent::Reply(text) => if accepted_text(text@, prompt).len() > 0 {
                earlier.push(accepted_text(text@, prompt))
            } else {
                earlier
            },
            _ => earlier,
        }
    }
}

/// The first failure among the events.
pub open spec fn first_failure<E>(events: Seq<BatchEvent<E>>) -> Option<BatchError<E>>
    decreases events.len(),
{
    if events.len() == 0 {
        None
    } else {
        match first_failure(events.drop_last()) {
            Some(error) => Some(error),
            None => match events.last() {
                BatchEvent::TimedOut => Some(BatchError::TimedOut),
                BatchEvent::Failed(error) => Some(BatchError::Request(error)),
                _ => None,
            },
        }
    }
}

/// Number of request outcomes among the events.
pub open spec fn outcomes<E>(events: Seq<BatchEvent<E>>) -> nat
    decreases events.len(),
{
    if events.len() == 0 {
        0
    } else {
        match events.last() {
            BatchEvent::Chunk(_) | BatchEvent::Closed => outcomes(events.drop_last()),
            _ => outcomes(events.drop_last()) + 1,
        }
    }
}

impl<E> BatchState<E> {
    /// The pieces of audio that the batch takes up when it deals with what is
    /// due, as ranges of samples: those it passes over, and the one it sends.
    pub open spec fn pieces(self) -> Seq<(int, int)>
        decreases self.samples.len() - self.offset,
        when self.in_bounds()
        via Self::pieces_decreases
    {
        match self.next_cut() {
            Some(end) => if is_gated(self.piece(end), SAMPLE_RATE, MIN_REQUEST_MS) {
                seq![(self.offset, end)] + (BatchState { offset: end, ..self }).pieces()
            } else {
                seq![(self.offset, end)]
            },
            None => Seq::empty(),
        }
    }

    #[via_fn]
    proof fn pieces_decreases(self) {
        self.lemma_next_cut();
    }

    /// How far the audio is dealt with or in flight.
    pub open spec fn frontier(self) -> int {
        match self.in_flight {
            Some(end) => end,
            None => self.offset,
        }
    }
}

/// All pieces of audio that a run took up.
pub open spec fn run_pieces<E>(
    seconds: u64,
    prompt: Option<Seq<char>>,
    events: Seq<BatchEvent<E>>,
) -> Seq<(int, int)>
    decreases events.len(),
{
    if events.len() == 0 {
        Seq::empty()
    } else {
        run_pieces(seconds, prompt, events.drop_last()) + run_state(
            seconds,
            prompt,
            events.drop_last(),
        ).noted(events.last()).pieces()
    }
}

/// The samples of these pieces, in order.
pub open spec fn audio_of(samples: Seq<i16>, pieces: Seq<(int, int)>) -> Seq<i16>
    decreases pieces.len(),
{
    if pieces.len() == 0 {
        Seq::empty()
    } else {
        audio_of(samples, pieces.drop_last()) + samples.subrange(
            pieces.last().0,
            pieces.last().1,
        )
    }
}

/// Number of pieces that were worth a request.
pub open spec fn requests(samples: Seq<i16>, pieces: Seq<(int, int)>) -> nat
    decreases pieces.len(),
{
    if pieces.len() == 0 {
        0
    } else {
        let piece = samples.subrange(pieces.last().0, pieces.last().1);
        let earlier = requests(samples, pieces.drop_last());
        if is_gated(piece, SAMPLE_RATE, MIN_REQUEST_MS) {
            earlier
        } else {
            earlier + 1
        }
    }
}

/// The pieces lie end to end from `from` to `to`; none is empty or longer than
/// `limit`.
pub open spec fn tile(pieces: Seq<(int, int)>, from: int, to: int, limit: int) -> bool {
    &&& pieces.len() == 0 ==> from == to
    &&& pieces.len() > 0 ==> pieces[0].0 == from && pieces.last().1 == to
    &&& forall|i: int|
        0 <= i < pieces.len() ==> (#[trigger] pieces[i]).0 < pieces[i].1 <= pieces[i].0 + limit
    &&& forall|i: int, j: int|
        0 <= i < j < pieces.len() && j == i + 1 ==> (#[trigger] pieces[i]).1 == (
        #[trigger] pieces[j]).0
}

proof fn lemma_tile_append(
    a: Seq<(int, int)>,
    b: Seq<(int, int)>,
    from: int,
    mid: int,
    to: int,
    limit: int,
)
    requires
        tile(a, from, mid, limit),
        tile(b, mid, to, limit),
    ensures
        tile(a + b, from, to, limit),
{
    let all = a + b;
    assert forall|i: int| 0 <= i < all.len() implies (#[trigger] all[i]).0 < all[i].1 <= all[i].0
        + limit by {
        if i < a.len() {
            assert(all[i] == a[i]);
        } else {
            assert(all[i] == b[i - a.len()]);
        }
    }
    assert forall|i: int, j: int| 0 <= i < j < all.len() && j == i + 1 implies (
    #[trigger] all[i]).1 == (#[trigger] all[j]).0 by {
        if j < a.len() {
            assert(all[i] == a[i] && all[j] == a[j]);
        } else if i >= a.len() {
            assert(all[i] == b[i - a.len()] && all[j] == b[j - a.len()]);
        }
    }
}

/// Without the last of them, pieces lie end to end up to where that one begins.
proof fn lemma_tile_front(pieces: Seq<(int, int)>, from: int, to: int, limit: int)
    requires
        tile(pieces, from, to, limit),
        pieces.len() > 0,
    ensures
        tile(pieces.drop_last(), from, pieces.last().0, limit),
{
    let front = pieces.drop_last();
    assert forall|i: int| 0 <= i < front.len() implies (#[trigger] front[i]).0 < front[i].1
        <= front[i].0 + limit by {
        assert(front[i] == pieces[i]);
    }
    assert forall|i: int, j: int| 0 <= i < j < front.len() && j == i + 1 implies (
    #[trigger] front[i]).1 == (#[trigger] front[j]).0 by {
        assert(front[i] == pieces[i] && front[j] == pieces[j]);
    }
    if front.len() > 0 {
        assert(pieces[pieces.len() - 2].1 == pieces[pieces.len() - 1].0);
    }
}

/// The pieces that a batch takes up lie end to end from its offset to its new
/// frontier.
proof fn lemma_pieces_tile<E>(state: BatchState<E>)
    requires
        state.in_bounds(),
        state.in_flight is None,
    ensures
        tile(state.pieces(), state.offset, state.settled().frontier(), state.limit),
    decreases state.samples.len() - state.offset,
{
    state.lemma_next_cut();
    match state.next_cut() {
        Some(end) => {
            if is_gated(state.piece(end), SAMPLE_RATE, MIN_REQUEST_MS) {
                let next = BatchState { offset: end, ..state };
                lemma_pieces_tile(next);
                lemma_tile_append(
                    seq![(state.offset, end)],
                    next.pieces(),
                    state.offset,
                    end,
                    next.settled().frontier(),
                    state.limit,
                );
            }
        },
        None => {},
    }
}

/// Pieces that lie end to end hold exactly the samples between their two ends.
proof fn lemma_tile_audio(
    samples: Seq<i16>,
    pieces: Seq<(int, int)>,
    from: int,
    to: int,
    limit: int,
)
    requires
        tile(pieces, from, to, limit),
        0 <= from,
        to <= samples.len(),
    ensures
        from <= to,
        audio_of(samples, pieces) == samples.subrange(from, to),
    decreases pieces.len(),
{
    if pieces.len() > 0 {
        let front = pieces.drop_last();
        let mid = pieces.last().0;
        lemma_tile_front(pieces, from, to, limit);
        lemma_tile_audio(samples, front, from, mid, limit);
        assert(samples.subrange(from, mid) + samples.subrange(mid, to) =~= samples.subrange(
            from,
            to,
        ));
    } else {
        assert(samples.subrange(from, to) =~= Seq::<i16>::empty());
    }
}

/// A run always leaves a valid batch, with the limit and prompt it began with.
pub proof fn law_run_valid<E>(
    seconds: u64,
    prompt: Option<Seq<char>>,
    events: Seq<BatchEvent<E>>,
)
    requires
        is_run(seconds, prompt, events),
    ensures
        run_state(seconds, prompt, events).valid(),
        run_state(seconds, prompt, events).well_formed(),
        run_state(seconds, prompt, events).limit == limit_for(seconds),
        run_state(seconds, prompt, events).prompt == prompt,
    decreases events.len(),
{
    if events.len() > 0 {
        let before = run_state(seconds, prompt, events.drop_last());
        law_run_valid(seconds, prompt, events.drop_last());
        before.noted(events.last()).lemma_settled();
    } else {
        let start = BatchState::<E>::initial(seconds, prompt);
        assert(start.pending().len() == 0);
    }
}

/// Nothing that was captured is ever lost: the batch holds all audio of the run,
/// whatever became of the requests.
pub proof fn law_all_audio_is_kept<E>(
    seconds: u64,
    prompt: Option<Seq<char>>,
    events: Seq<BatchEvent<E>>,
)
    requires
        is_run(seconds, prompt, events),
    ensures
        run_state(seconds, prompt, events).samples == heard(events),
    decreases events.len(),
{
    if events.len() > 0 {
        let before = run_state(seconds, prompt, events.drop_last());
        law_run_valid(seconds, prompt, events.drop_last());
        law_all_audio_is_kept(seconds, prompt, events.drop_last());
        before.noted(events.last()).lemma_settled();
    }
}

/// The pieces of a run lie end to end from the first sample on: no sample is
/// lost or taken twice at a boundary, and no piece exceeds the limit.
pub proof fn law_pieces_are_contiguous<E>(
    seconds: u64,
    prompt: Option<Seq<char>>,
    events: Seq<BatchEvent<E>>,
)
    requires
        is_run(seconds, prompt, events),
    ensures
        tile(
            run_pieces(seconds, prompt, events),
            0,
            run_state(seconds, prompt, events).frontier(),
            limit_for(seconds),
        ),
        audio_of(
            run_state(seconds, prompt, events).samples,
            run_pieces(seconds, prompt, events),
        ) == run_state(seconds, prompt, events).samples.take(
            run_state(seconds, prompt, events).frontier(),
        ),
    decreases events.len(),
{
    let state = run_state(seconds, prompt, events);
    let pieces = run_pieces(seconds, prompt, events);
    law_run_valid(seconds, prompt, events);
    if events.len() > 0 {
        let before = run_state(seconds, prompt, events.drop_last());
        let noted = before.noted(events.last());
        law_run_valid(seconds, prompt, events.drop_last());
        law_pieces_are_contiguous(seconds, prompt, events.drop_last());
        lemma_pieces_tile(noted);
        lemma_tile_append(
            run_pieces(seconds, prompt, events.drop_last()),
            noted.pieces(),
            0,
            before.frontier(),
            state.frontier(),
            limit_for(seconds),
        );
    }
    lemma_tile_audio(state.samples, pieces, 0, state.frontier(), limit_for(seconds));
    assert(state.samples.subrange(0, state.frontier()) =~= state.samples.take(state.frontier()));
}

/// Once capture has stopped and nothing is in flight, an unfailed run has taken
/// up all of its audio, has had an outcome for each of its requests, and its
/// transcript is made of all replies.
pub proof fn law_finished_run_is_complete<E>(
    seconds: u64,
    prompt: Option<Seq<char>>,
    events: Seq<BatchEvent<E>>,
)
    requires
        is_run(seconds, prompt, events),
        run_state(seconds, prompt, events).closed,
        run_state(seconds, prompt, events).in_flight is None,
        first_failure(events) is None,
    ensures
        audio_of(heard(events), run_pieces(seconds, prompt, events)) == heard(events),
        requests(heard(events), run_pieces(seconds, prompt, events)) == outcomes(events),
        run_state(seconds, prompt, events).failure is None,
        run_state(seconds, prompt, events).parts == kept_replies(prompt, events),
{
    let state = run_state(seconds, prompt, events);
    law_run_valid(seconds, prompt, events);
    law_all_audio_is_kept(seconds, prompt, events);
    law_first_failure_is_final(seconds, prompt, events);
    law_pieces_are_contiguous(seconds, prompt, events);
    law_one_request_at_a_time(seconds, prompt, events);
    law_text_in_order(seconds, prompt, events);
    assert(state.samples.take(state.samples.len() as int) =~= state.samples);
}

/// The transcript is made of the replies, in the order in which they came.
pub proof fn law_text_in_order<E>(
    seconds: u64,
    prompt: Option<Seq<char>>,
    events: Seq<BatchEvent<E>>,
)
    requires
        is_run(seconds, prompt, events),
    ensures
        run_state(seconds, prompt, events).parts == kept_replies(prompt, events),
    decreases events.len(),
{
    if events.len() > 0 {
        let before = run_state(seconds, prompt, events.drop_last());
        law_run_valid(seconds, prompt, events.drop_last());
        law_text_in_order(seconds, prompt, events.drop_last());
        before.noted(events.last()).lemma_settled();
    }
}

/// The first failure is the one that is reported, and no request follows it.
pub proof fn law_first_failure_is_final<E>(
    seconds: u64,
    prompt: Option<Seq<char>>,
    events: Seq<BatchEvent<E>>,
)
    requires
        is_run(seconds, prompt, events),
    ensures
        run_state(seconds, prompt, events).failure == first_failure(events),
        first_failure(events) is Some ==> run_state(seconds, prompt, events).in_flight is None,
    decreases events.len(),
{
    if events.len() > 0 {
        let before = run_state(seconds, prompt, events.drop_last());
        law_run_valid(seconds, prompt, events.drop_last());
        law_first_failure_is_final(seconds, prompt, events.drop_last());
        before.noted(events.last()).lemma_settled();
    }
}

/// Pieces that lie within the audio are the same after more audio has come.
proof fn lemma_requests_grow(
    samples: Seq<i16>,
    more: Seq<i16>,
    pieces: Seq<(int, int)>,
    to: int,
    limit: int,
)
    requires
        tile(pieces, 0, to, limit),
        to <= samples.len(),
    ensures
        requests(samples + more, pieces) == requests(samples, pieces),
    decreases pieces.len(),
{
    if pieces.len() > 0 {
        let front = pieces.drop_last();
        let mid = pieces.last().0;
        lemma_tile_front(pieces, 0, to, limit);
        lemma_requests_grow(samples, more, front, mid, limit);
        lemma_tile_audio(samples, front, 0, mid, limit);
        assert((samples + more).subrange(mid, to) =~= samples.subrange(mid, to));
    }
}

proof fn lemma_requests_append(samples: Seq<i16>, a: Seq<(int, int)>, b: Seq<(int, int)>)
    ensures
        requests(samples, a + b) == requests(samples, a) + requests(samples, b),
    decreases b.len(),
{
    if b.len() == 0 {
        assert(a + b =~= a);
    } else {
        assert((a + b).drop_last() =~= a + b.drop_last());
        lemma_requests_append(samples, a, b.drop_last());
    }
}

/// Of the pieces that a batch takes up, the one that ends in flight is a request
/// and no other is.
proof fn lemma_pieces_requests<E>(state: BatchState<E>)
    requires
        state.in_bounds(),
        state.in_flight is None,
    ensures
        requests(state.samples, state.pieces()) == (if state.settled().in_flight is Some {
            1nat
        } else {
            0nat
        }),
    decreases state.samples.len() - state.offset,
{
    state.lemma_next_cut();
    match state.next_cut() {
        Some(end) => {
            let first = seq![(state.offset, end)];
            assert(first.drop_last() =~= Seq::empty());
            assert(requests(state.samples, first.drop_last()) == 0);
            if is_gated(state.piece(end), SAMPLE_RATE, MIN_REQUEST_MS) {
                let next = BatchState { offset: end, ..state };
                lemma_pieces_requests(next);
                lemma_requests_append(state.samples, first, next.pieces());
            }
        },
        None => {},
    }
}

/// Requests run one at a time: each one has had its outcome before the next is
/// sent, so at most one more request than outcomes was ever made.
pub proof fn law_one_request_at_a_time<E>(
    seconds: u64,
    prompt: Option<Seq<char>>,
    events: Seq<BatchEvent<E>>,
)
    requires
        is_run(seconds, prompt, events),
    ensures
        requests(
            run_state(seconds, prompt, events).samples,
            run_pieces(seconds, prompt, events),
        ) == outcomes(events) + (if run_state(seconds, prompt, events).in_flight is Some {
            1nat
        } else {
            0nat
        }),
    decreases events.len(),
{
    if events.len() > 0 {
        let earlier = events.drop_last();
        let before = run_state(seconds, prompt, earlier);
        let noted = before.noted(events.last());
        let pieces = run_pieces(seconds, prompt, earlier);
        law_run_valid(seconds, prompt, earlier);
        law_one_request_at_a_time(seconds, prompt, earlier);
        law_pieces_are_contiguous(seconds, prompt, earlier);
        noted.lemma_settled();
        let more = match events.last() {
            BatchEvent::Chunk(chunk) => chunk@,
            _ => Seq::empty(),
        };
        assert(noted.samples =~= before.samples + more);
        lemma_requests_grow(before.samples, more, pieces, before.frontier(), limit_for(seconds));
        lemma_requests_append(noted.samples, pieces, noted.pieces());
        lemma_pieces_requests(noted);
    }
}

/// A recording shorter than the limit is at most one piece, which is taken up
/// when capture has stopped.
pub proof fn law_short_recording_is_one_piece<E>(
    seconds: u64,
    prompt: Option<Seq<char>>,
    events: Seq<BatchEvent<E>>,
)
    requires
        is_run(seconds, prompt, events),
        heard(events).len() < limit_for(seconds),
    ensures
        run_pieces(seconds, prompt, events).len() <= 1,
        run_pieces(seconds, prompt, events).len() == 1 ==> run_pieces(seconds, prompt, events)[0]
            == (0int, heard(events).len() as int) && run_state(seconds, prompt, events).closed,
    decreases events.len(),
{
    if events.len() > 0 {
        let earlier = events.drop_last();
        let before = run_state(seconds, prompt, earlier);
        let noted = before.noted(events.last());
        let pieces = run_pieces(seconds, prompt, earlier);
        law_run_valid(seconds, prompt, earlier);
        law_all_audio_is_kept(seconds, prompt, events);
        law_all_audio_is_kept(seconds, prompt, earlier);
        law_pieces_are_contiguous(seconds, prompt, earlier);
        law_pieces_are_contiguous(seconds, prompt, events);
        noted.lemma_settled();
        law_short_recording_is_one_piece(seconds, prompt, earlier);
        noted.lemma_next_cut();
        match noted.next_cut() {
            Some(end) => {
                assert(end == noted.samples.len());
                let rest = BatchState { offset: end, ..noted };
                assert(rest.next_cut() is None);
                assert(rest.pieces() =~= Seq::empty());
                assert(noted.pieces() =~= seq![(noted.offset, end)]);
                assert(noted.offset == before.frontier());
            },
            None => {
                assert(noted.pieces() =~= Seq::empty());
                assert(run_pieces(seconds, prompt, events) =~= pieces);
            },
        }
    }
}

/// A batch that has heard quiet audio only has nothing to send.
proof fn lemma_quiet_settles<E>(state: BatchState<E>)
    requires
        state.in_bounds(),
        state.in_flight is None,
        is_within(state.samples, 98),
    ensures
        state.settled().in_flight is None,
    decreases state.samples.len() - state.offset,
{
    state.lemma_next_cut();
    match state.next_cut() {
        Some(end) => {
            let piece = state.piece(end);
            assert forall|i: int| 0 <= i < piece.len() implies -98 <= #[trigger] piece[i] <= 98 by {
                assert(piece[i] == state.samples[state.offset + i]);
            }
            law_quiet_levels(piece);
            lemma_quiet_settles(BatchState { offset: end, ..state });
        },
        None => {},
    }
}

/// Audio that stays within 98 of zero, silence above all, is never sent, however
/// long it lasts.
pub proof fn law_quiet_recording_is_never_sent<E>(
    seconds: u64,
    prompt: Option<Seq<char>>,
    events: Seq<BatchEvent<E>>,
)
    requires
        is_run(seconds, prompt, events),
        is_within(heard(events), 98),
    ensures
        run_state(seconds, prompt, events).in_flight is None,
        outcomes(events) == 0,
        run_state(seconds, prompt, events).parts.len() == 0,
    decreases events.len(),
{
    if events.len() > 0 {
        let earlier = events.drop_last();
        let before = run_state(seconds, prompt, earlier);
        let noted = before.noted(events.last());
        assert forall|i: int| 0 <= i < heard(earlier).len() implies -98 <= #[trigger] heard(
            earlier,
        )[i] <= 98 by {
            assert(heard(earlier)[i] == heard(events)[i]);
        }
        law_quiet_recording_is_never_sent(seconds, prompt, earlier);
        law_run_valid(seconds, prompt, earlier);
        law_all_audio_is_kept(seconds, prompt, earlier);
        assert(noted.samples =~= heard(events));
        noted.lemma_settled();
        lemma_quiet_settles(noted);
    }
}

proof fn lemma_failure_is_an_outcome<E>(events: Seq<BatchEvent<E>>)
    ensures
        first_failure(events) is Some ==> outcomes(events) > 0,
    decreases events.len(),
{
    if events.len() > 0 {
        lemma_failure_is_an_outcome(events.drop_last());
    }
}

/// The piece that ends in flight is the last that the batch takes up.
proof fn lemma_last_piece_in_flight<E>(state: BatchState<E>)
    requires
        state.in_bounds(),
        state.in_flight is None,
    ensures
        state.settled().in_flight matches Some(end) ==> state.pieces().len() > 0
            && state.pieces().last() == (state.settled().offset, end),
    decreases state.samples.len() - state.offset,
{
    state.lemma_next_cut();
    match state.next_cut() {
        Some(end) => {
            if is_gated(state.piece(end), SAMPLE_RATE, MIN_REQUEST_MS) {
                lemma_last_piece_in_flight(BatchState { offset: end, ..state });
            }
        },
        None => {},
    }
}

/// A recording shorter than the limit is one request, unless it is gated: then it
/// is none. All of it is sent, when capture stops.
pub proof fn law_short_recording_is_one_request<E>(
    seconds: u64,
    prompt: Option<Seq<char>>,
    events: Seq<BatchEvent<E>>,
)
    requires
        is_run(seconds, prompt, events),
        run_state(seconds, prompt, events).closed,
        heard(events).len() < limit_for(seconds),
    ensures
        requests(heard(events), run_pieces(seconds, prompt, events)) == (if is_gated(
            heard(events),
            SAMPLE_RATE,
            MIN_REQUEST_MS,
        ) {
            0nat
        } else {
            1nat
        }),
        run_state(seconds, prompt, events).in_flight matches Some(end) ==> run_state(
            seconds,
            prompt,
            events,
        ).piece(end) == heard(events),
        events.last() is Closed ==> (run_state(seconds, prompt, events).in_flight is Some
            <==> !is_gated(heard(events), SAMPLE_RATE, MIN_REQUEST_MS)),
{
    let state = run_state(seconds, prompt, events);
    let pieces = run_pieces(seconds, prompt, events);
    let audio = heard(events);
    law_run_valid(seconds, prompt, events);
    law_all_audio_is_kept(seconds, prompt, events);
    law_short_recording_is_one_piece(seconds, prompt, events);
    law_pieces_are_contiguous(seconds, prompt, events);
    law_one_request_at_a_time(seconds, prompt, events);
    law_first_failure_is_final(seconds, prompt, events);
    lemma_failure_is_an_outcome(events);
    assert(audio.subrange(0, audio.len() as int) =~= audio);
    if pieces.len() > 0 {
        assert(pieces.drop_last() =~= Seq::empty());
        assert(requests(audio, pieces.drop_last()) == 0);
    } else {
        assert(audio.len() == 0);
        assert(duration_ms(audio.len(), SAMPLE_RATE) < MIN_REQUEST_MS);
    }
    let earlier = events.drop_last();
    let before = run_state(seconds, prompt, earlier);
    law_run_valid(seconds, prompt, earlier);
    lemma_last_piece_in_flight(before.noted(events.last()));
    if events.last() is Closed {
        law_short_recording_is_one_piece(seconds, prompt, earlier);
        law_one_request_at_a_time(seconds, prompt, earlier);
    }
}

/// A valid batch has no full request waiting: as soon as that much audio is
/// pending, a request is in flight, unless one has failed.
pub proof fn law_no_backlog<E>(state: BatchState<E>)
    requires
        state.valid(),
        state.failure is None,
        state.in_flight is None,
    ensures
        state.pending().len() < state.limit,
        state.closed ==> state.pending().len() == 0,
{
}

/// A request holds at least 300 ms of audio and at most the limit.
pub proof fn law_request_length<E>(state: BatchState<E>)
    requires
        state.valid(),
        state.in_flight is Some,
    ensures
        4800 <= state.piece(state.in_flight->0).len() <= state.limit,
{
    state.lemma_next_cut();
    assert(duration_ms(state.piece(state.in_flight->0).len(), SAMPLE_RATE) >= MIN_REQUEST_MS);
}

} // verus!
