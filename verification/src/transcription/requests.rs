//! What a batch does with audio and outcomes, counted in samples and seconds.

use vstd::prelude::*;

use crate::audio::capture::{wav_file, SAMPLE_RATE};
use crate::audio::gate::is_gated;
use crate::text::{joined, trimmed};
use crate::transcription::chunked_batch::{
    request_body, timeout_message, Batch, BatchAction, BatchError, BatchEvent, BatchState,
    MIN_REQUEST_MS, REQUEST_TIMEOUT_SECS,
};
use crate::transcription::laws::{
    heard, is_run, law_all_audio_is_kept, law_pieces_are_contiguous, law_request_length,
    law_run_valid, run_pieces, run_state,
};
use crate::transcription::reply::is_prompt_echo;
use crate::transcription::split::{is_first_quietest, lemma_cut_in_samples};

verus! {

/// The samples from `from` to `to` are the next piece of the audio. Once `limit`
/// samples follow `from`, the piece ends in the middle of the quietest of the last
/// fifty frames in front of that limit. Otherwise it is all that is left, and is
/// taken once capture has stopped.
pub open spec fn is_next_piece(
    audio: Seq<i16>,
    closed: bool,
    limit: int,
    from: int,
    to: int,
) -> bool {
    if from + limit <= audio.len() {
        exists|i: int| #[trigger]
            is_first_quietest(audio, from + limit - 80000, 50, i) && to == from + limit - 80000
                + 1600 * i + 800
    } else {
        closed && from < to && to == audio.len()
    }
}

/// The pieces lie end to end between `from` and `to`.
pub open spec fn end_to_end(pieces: Seq<(int, int)>, from: int, to: int) -> bool {
    &&& pieces.len() == 0 ==> from == to
    &&& pieces.len() > 0 ==> pieces[0].0 == from && pieces[pieces.len() - 1].1 == to
    &&& forall|i: int, j: int|
        0 <= i && j == i + 1 && j < pieces.len() ==> (#[trigger] pieces[i]).1 == (
        #[trigger] pieces[j]).0
}

/// Frames of the audio behind an offset are frames of the audio.
proof fn lemma_quietest_shifts(a: Seq<i16>, b: Seq<i16>, shift: int, from: int, n: int, i: int)
    requires
        is_first_quietest(a, from, n, i),
        0 <= from,
        0 <= shift,
        from + 1600 * n <= a.len(),
        shift + from + 1600 * n <= b.len(),
        forall|k: int| from <= k < from + 1600 * n ==> a[k] == #[trigger] b[shift + k],
    ensures
        is_first_quietest(b, shift + from, n, i),
{
    let to = shift + from;
    assert forall|j: int| 0 <= j < n implies a.subrange(from + 1600 * j, from + 1600 * j + 1600)
        == #[trigger] b.subrange(to + 1600 * j, to + 1600 * j + 1600) by {
        let one = a.subrange(from + 1600 * j, from + 1600 * j + 1600);
        let other = b.subrange(to + 1600 * j, to + 1600 * j + 1600);
        assert forall|k: int| 0 <= k < 1600 implies one[k] == #[trigger] other[k] by {
            assert(a[from + 1600 * j + k] == b[shift + (from + 1600 * j + k)]);
        }
        assert(one =~= other);
    }
    assert(b.subrange(to + 1600 * i, to + 1600 * i + 1600) == a.subrange(
        from + 1600 * i,
        from + 1600 * i + 1600,
    ));
}

/// What a batch takes up next is the next piece of its audio; if nothing is due, no
/// full request is pending, and nothing at all once capture has stopped.
proof fn lemma_next_piece<E>(state: BatchState<E>)
    requires
        state.in_bounds(),
    ensures
        match state.next_cut() {
            Some(end) => state.failure is None && is_next_piece(
                state.samples,
                state.closed,
                state.limit,
                state.offset,
                end,
            ),
            None => state.failure is None ==> state.samples.len() < state.offset + state.limit && (
            state.closed ==> state.offset == state.samples.len()),
        },
{
    state.lemma_next_cut();
    if state.failure is None && state.offset + state.limit <= state.samples.len() {
        let i = lemma_cut_in_samples(state.pending(), state.limit);
        assert forall|k: int|
            state.limit - 80000 <= k < state.limit - 80000 + 1600 * 50 implies state.pending()[k]
            == #[trigger] state.samples[state.offset + k] by {}
        lemma_quietest_shifts(
            state.pending(),
            state.samples,
            state.offset,
            state.limit - 80000,
            50,
            i,
        );
        assert(is_first_quietest(
            state.samples,
            state.offset + state.limit - 80000,
            50,
            i,
        ));
    }
}

/// The pieces that a batch passes over when it deals with what is due.
proof fn lemma_passed_over<E>(state: BatchState<E>) -> (passed: Seq<(int, int)>)
    requires
        state.in_bounds(),
        state.in_flight is None,
    ensures
        end_to_end(passed, state.offset, state.settled().offset),
        forall|i: int|
            0 <= i < passed.len() ==> is_next_piece(
                state.samples,
                state.closed,
                state.limit,
                (#[trigger] passed[i]).0,
                passed[i].1,
            ) && is_gated(state.samples.subrange(passed[i].0, passed[i].1), 16000, 300),
        state.failure is Some ==> passed.len() == 0,
    decreases state.samples.len() - state.offset,
{
    state.lemma_next_cut();
    lemma_next_piece(state);
    match state.next_cut() {
        Some(end) => if is_gated(state.piece(end), SAMPLE_RATE, MIN_REQUEST_MS) {
            let first = seq![(state.offset, end)];
            let rest = lemma_passed_over(BatchState { offset: end, ..state });
            let all = first + rest;
            assert forall|i: int| 0 <= i < all.len() implies is_next_piece(
                state.samples,
                state.closed,
                state.limit,
                (#[trigger] all[i]).0,
                all[i].1,
            ) && is_gated(state.samples.subrange(all[i].0, all[i].1), 16000, 300) by {
                if i > 0 {
                    assert(all[i] == rest[i - 1]);
                }
            }
            assert forall|i: int, j: int|
                0 <= i && j == i + 1 && j < all.len() implies (#[trigger] all[i]).1 == (
            #[trigger] all[j]).0 by {
                assert(all[j] == rest[j - 1]);
                if i > 0 {
                    assert(all[i] == rest[i - 1]);
                }
            }
            if rest.len() > 0 {
                assert(all[all.len() - 1] == rest[rest.len() - 1]);
            }
            all
        } else {
            Seq::empty()
        },
        None => Seq::empty(),
    }
}

/// A request holds at most as many seconds of audio as are configured, ten below
/// that range and two minutes above it. A new batch has heard nothing, and keeps
/// the prompt.
pub proof fn law_new_batch<E>(seconds: u64, prompt: Option<String>, batch: Batch<E>)
    requires
        call_ensures(Batch::<E>::new, (seconds, prompt), batch),
    ensures
        call_requires(Batch::<E>::new, (seconds, prompt)),
        10 <= seconds <= 120 ==> batch@.limit == seconds * 16000,
        seconds < 10 ==> batch@.limit == 160000,
        seconds > 120 ==> batch@.limit == 1920000,
        prompt is None ==> batch@.prompt is None,
        prompt matches Some(text) ==> batch@.prompt == Some(text@),
        batch@.samples.len() == 0,
        batch@.offset == 0,
        batch@.in_flight is None,
        !batch@.closed,
        batch@.parts.len() == 0,
        batch@.failure is None,
{
}

/// What one event does to a batch, and what the batch then asks for.
///
/// A chunk is added to the audio, and nothing else is. A reply that is neither an
/// echo of the prompt nor blank becomes the last part of the transcript. A timeout
/// or failure is kept. Then pieces are taken up one after the other: those that
/// are too short or silent are passed over, and the first other one is sent as it
/// is. After a failure nothing is taken up.
pub proof fn law_handle<E>(
    batch: &mut Batch<E>,
    event: BatchEvent<E>,
    action: BatchAction,
) -> (passed: Seq<(int, int)>)
    requires
        call_ensures(Batch::<E>::handle, (batch, event), action),
        160000 <= old(batch)@.limit <= 1920000,
        0 <= old(batch)@.offset <= old(batch)@.samples.len(),
        match event {
            BatchEvent::Chunk(_) | BatchEvent::Closed => old(batch)@.in_flight is None && !old(batch)@.closed,
            _ => old(batch)@.in_flight matches Some(end) && old(batch)@.offset < end <= old(batch)@.samples.len(),
        },
    ensures
        call_requires(Batch::<E>::handle, (batch, event)),
        final(batch)@.limit == old(batch)@.limit,
        final(batch)@.prompt == old(batch)@.prompt,
        final(batch)@.samples == (match event {
            BatchEvent::Chunk(chunk) => old(batch)@.samples + chunk@,
            _ => old(batch)@.samples,
        }),
        final(batch)@.closed == (old(batch)@.closed || event is Closed),
        final(batch)@.failure == (match event {
            BatchEvent::TimedOut => Some(BatchError::TimedOut),
            BatchEvent::Failed(error) => Some(BatchError::Request(error)),
            _ => old(batch)@.failure,
        }),
        event !is Reply ==> final(batch)@.parts == old(batch)@.parts,
        event matches BatchEvent::Reply(text) ==> {
            let echo = old(batch)@.prompt matches Some(prompt) && is_prompt_echo(text@, prompt);
            final(batch)@.parts == (if echo || trimmed(text@).len() == 0 {
                old(batch)@.parts
            } else {
                old(batch)@.parts.push(trimmed(text@))
            })
        },
        end_to_end(
            passed,
            match old(batch)@.in_flight {
                Some(end) => end,
                None => old(batch)@.offset,
            },
            final(batch)@.offset,
        ),
        forall|i: int|
            0 <= i < passed.len() ==> is_next_piece(
                final(batch)@.samples,
                final(batch)@.closed,
                final(batch)@.limit,
                (#[trigger] passed[i]).0,
                passed[i].1,
            ) && is_gated(final(batch)@.samples.subrange(passed[i].0, passed[i].1), 16000, 300),
        final(batch)@.failure is Some ==> passed.len() == 0 && final(batch)@.in_flight is None,
        final(batch)@.failure is None ==> match final(batch)@.in_flight {
            Some(end) => is_next_piece(
                final(batch)@.samples,
                final(batch)@.closed,
                final(batch)@.limit,
                final(batch)@.offset,
                end,
            ) && !is_gated(final(batch)@.samples.subrange(final(batch)@.offset, end), 16000, 300),
            None => final(batch)@.samples.len() < final(batch)@.offset + final(batch)@.limit && (
            final(batch)@.closed ==> final(batch)@.offset == final(batch)@.samples.len()),
        },
        0 <= final(batch)@.offset <= final(batch)@.samples.len(),
        final(batch)@.in_flight matches Some(end) ==> final(batch)@.offset < end <= final(batch)@.samples.len() && end - final(batch)@.offset <= final(batch)@.limit,
        match action {
            BatchAction::Receive => final(batch)@.in_flight is None && !final(batch)@.closed,
            BatchAction::Finish => final(batch)@.in_flight is None && final(batch)@.closed,
            BatchAction::Transcribe(wav) => final(batch)@.in_flight matches Some(end) && wav@
                == wav_file(final(batch)@.samples.subrange(final(batch)@.offset, end)),
        },
{
    let noted = old(batch)@.noted(event);
    noted.lemma_settled();
    let passed = lemma_passed_over(noted);
    let after = noted.settled();
    after.lemma_next_cut();
    lemma_next_piece(after);
    passed
}

/// A batch that is done can be ended. It gives back all of its audio, and the parts
/// of the transcript with a space between each two, or else the failure.
pub proof fn law_finish<E>(batch: Batch<E>, r: (Vec<i16>, Result<String, BatchError<E>>))
    requires
        call_ensures(Batch::<E>::finish, (batch,), r),
        batch@.closed,
        batch@.in_flight is None,
    ensures
        call_requires(Batch::<E>::finish, (batch,)),
        r.0@ == batch@.samples,
        match batch@.failure {
            Some(error) => r.1 == Err::<String, BatchError<E>>(error),
            None => r.1 is Ok && r.1->Ok_0@ == joined(batch@.parts, seq![' ']),
        },
{
    reveal_strlit(" ");
    assert(" "@ =~= seq![' ']);
}

/// A piece that is not gated is sent whole.
pub proof fn law_request_body(piece: &[i16], sent: Option<Vec<u8>>, gated: Option<Vec<u8>>)
    requires
        call_ensures(request_body, (piece, false), sent),
        call_ensures(request_body, (piece, true), gated),
        piece@.len() <= 2147483629,
    ensures
        call_requires(request_body, (piece, false)),
        call_requires(request_body, (piece, true)),
        sent is Some && sent->0@ == wav_file(piece@),
        gated is None,
{
}

/// A request is given up after two minutes, and the message says so.
pub proof fn law_timeout(message: String)
    requires
        call_ensures(timeout_message, (), message),
    ensures
        call_requires(timeout_message, ()),
        REQUEST_TIMEOUT_SECS == 120,
        message@ == "background transcription timed out after 120 seconds"@,
{
}

/// A next piece stays one when more audio follows.
proof fn lemma_next_piece_stays(
    a: Seq<i16>,
    b: Seq<i16>,
    closed: bool,
    limit: int,
    from: int,
    to: int,
)
    requires
        is_next_piece(a, closed, limit, from, to),
        160000 <= limit,
        0 <= from,
        a.is_prefix_of(b),
        closed ==> a == b,
    ensures
        is_next_piece(b, closed, limit, from, to),
{
    if from + limit <= a.len() {
        let start = from + limit - 80000;
        let i = choose|i: int| #[trigger]
            is_first_quietest(a, start, 50, i) && to == start + 1600 * i + 800;
        assert forall|k: int| start <= k < start + 1600 * 50 implies a[k] == #[trigger] b[0 + k] by {
            assert(b.take(a.len() as int)[k] == b[k]);
        }
        lemma_quietest_shifts(a, b, 0, start, 50, i);
        assert(is_first_quietest(b, start, 50, i));
    }
}

/// The pieces that a batch takes up are each the next piece of its audio.
proof fn lemma_pieces_are_next<E>(state: BatchState<E>)
    requires
        state.in_bounds(),
        state.in_flight is None,
    ensures
        forall|i: int|
            0 <= i < state.pieces().len() ==> is_next_piece(
                state.samples,
                state.closed,
                state.limit,
                (#[trigger] state.pieces()[i]).0,
                state.pieces()[i].1,
            ) && state.offset <= state.pieces()[i].0,
    decreases state.samples.len() - state.offset,
{
    state.lemma_next_cut();
    lemma_next_piece(state);
    if let Some(end) = state.next_cut() {
        if is_gated(state.piece(end), SAMPLE_RATE, MIN_REQUEST_MS) {
            let next = BatchState { offset: end, ..state };
            lemma_pieces_are_next(next);
            assert forall|i: int| 0 <= i < state.pieces().len() implies is_next_piece(
                state.samples,
                state.closed,
                state.limit,
                (#[trigger] state.pieces()[i]).0,
                state.pieces()[i].1,
            ) && state.offset <= state.pieces()[i].0 by {
                if i > 0 {
                    assert(state.pieces()[i] == next.pieces()[i - 1]);
                }
            }
        }
    }
}

/// Over a whole run, every piece of audio is the next piece after the one before,
/// ends in a quiet moment near the limit or at the end of the recording, and holds
/// no more seconds than are configured; a request holds 300 ms or more.
pub proof fn law_requests_within_seconds<E>(
    seconds: u64,
    prompt: Option<Seq<char>>,
    events: Seq<BatchEvent<E>>,
)
    requires
        is_run(seconds, prompt, events),
    ensures
        ({
            let state = run_state(seconds, prompt, events);
            let pieces = run_pieces(seconds, prompt, events);
            let most: int = if seconds < 10 {
                160000
            } else if seconds <= 120 {
                seconds * 16000
            } else {
                1920000
            };
            &&& state.in_flight matches Some(end) ==> 4800 <= end - state.offset <= most
            &&& end_to_end(pieces, 0, state.frontier())
            &&& forall|i: int|
                0 <= i < pieces.len() ==> 0 < (#[trigger] pieces[i]).1 - pieces[i].0 <= most
                    && 0 <= pieces[i].0 && is_next_piece(
                    heard(events),
                    state.closed,
                    most,
                    pieces[i].0,
                    pieces[i].1,
                )
        }),
    decreases events.len(),
{
    let state = run_state(seconds, prompt, events);
    let pieces = run_pieces(seconds, prompt, events);
    law_run_valid(seconds, prompt, events);
    law_pieces_are_contiguous(seconds, prompt, events);
    law_all_audio_is_kept(seconds, prompt, events);
    if state.in_flight is Some {
        law_request_length(state);
        state.lemma_next_cut();
    }
    if events.len() > 0 {
        let earlier = events.drop_last();
        let before = run_state(seconds, prompt, earlier);
        let old_pieces = run_pieces(seconds, prompt, earlier);
        let noted = before.noted(events.last());
        law_run_valid(seconds, prompt, earlier);
        law_all_audio_is_kept(seconds, prompt, earlier);
        law_requests_within_seconds(seconds, prompt, earlier);
        noted.lemma_settled();
        lemma_pieces_are_next(noted);
        assert forall|i: int| 0 <= i < pieces.len() implies 0 <= (#[trigger] pieces[i]).0
            && is_next_piece(heard(events), state.closed, state.limit, pieces[i].0, pieces[i].1) by {
            if i < old_pieces.len() {
                assert(pieces[i] == old_pieces[i]);
                lemma_next_piece_stays(
                    heard(earlier),
                    heard(events),
                    before.closed,
                    state.limit,
                    pieces[i].0,
                    pieces[i].1,
                );
            } else {
                assert(pieces[i] == noted.pieces()[i - old_pieces.len()]);
            }
        }
    }
}

} // verus!
