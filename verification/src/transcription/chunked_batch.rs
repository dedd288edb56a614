//! Background batch decoding with final-only output and whole-recording recovery.
//!
//! Only one request runs at a time. The captured audio is retained whole for
//! recovery; a request never exceeds the limit.

use vstd::prelude::*;

use crate::audio::capture::{encode_wav, wav_file, SAMPLE_RATE};
use crate::audio::gate::{audio_gate, is_gated};
use crate::text::{join, joined, texts};
use crate::transcription::reply::{accept_text, accepted_text};
use crate::transcription::split::{law_split_in_bounds, split_at, split_point};

verus! {

/// Seconds after which a request is given up.
pub const REQUEST_TIMEOUT_SECS: u64 = 120;

/// Audio shorter than this is not sent, in milliseconds.
pub const MIN_REQUEST_MS: u64 = 300;

/// Why a recording has no transcript.
#[derive(Debug)]
pub enum BatchError<E> {
    /// A request took longer than [`REQUEST_TIMEOUT_SECS`].
    TimedOut,
    /// A request failed.
    Request(E),
}

/// What happens to a batch from outside.
#[derive(Debug)]
pub enum BatchEvent<E> {
    /// More audio was captured.
    Chunk(Vec<i16>),
    /// Capture has stopped.
    Closed,
    /// The request in flight returned this text.
    Reply(String),
    /// The request in flight took too long.
    TimedOut,
    /// The request in flight failed.
    Failed(E),
}

/// What a batch wants done next.
#[derive(Debug)]
pub enum BatchAction {
    /// Wait for more audio, or for the end of capture.
    Receive,
    /// Send this WAV file to be transcribed, and wait for the outcome.
    Transcribe(Vec<u8>),
    /// Nothing is left to do: take the result.
    Finish,
}

/// A batch as the contracts see it.
pub struct BatchState<E> {
    /// Most samples that one request may hold.
    pub limit: int,
    /// The prompt that is sent along with every request.
    pub prompt: Option<Seq<char>>,
    /// All audio captured so far.
    pub samples: Seq<i16>,
    /// How many of the samples are dealt with.
    pub offset: int,
    /// Where the request in flight ends; it begins at `offset`.
    pub in_flight: Option<int>,
    /// Capture has stopped.
    pub closed: bool,
    /// The texts received so far.
    pub parts: Seq<Seq<char>>,
    /// The first failure.
    pub failure: Option<BatchError<E>>,
}

/// Most samples that one request may hold, for a configured number of seconds:
/// at least ten seconds and at most two minutes of audio.
pub open spec fn limit_for(seconds: u64) -> int {
    let clamped: int = if seconds < 10 {
        10
    } else if seconds > 120 {
        120
    } else {
        seconds as int
    };
    clamped * SAMPLE_RATE
}

impl<E> BatchState<E> {
    /// A batch that has heard nothing yet.
    pub open spec fn initial(seconds: u64, prompt: Option<Seq<char>>) -> Self {
        BatchState {
            limit: limit_for(seconds),
            prompt,
            samples: Seq::empty(),
            offset: 0,
            in_flight: None,
            closed: false,
            parts: Seq::empty(),
            failure: None,
        }
    }

    /// The limit is one that [`limit_for`] gives, and the offset lies within the
    /// audio.
    pub open spec fn in_bounds(self) -> bool {
        &&& 10 * SAMPLE_RATE <= self.limit <= 120 * SAMPLE_RATE
        &&& 0 <= self.offset <= self.samples.len()
    }

    /// The audio that is not dealt with yet.
    pub open spec fn pending(self) -> Seq<i16> {
        self.samples.subrange(self.offset, self.samples.len() as int)
    }

    /// Where the next piece of audio ends, if one is due: at a cut once a full
    /// request is pending, and at the end of the audio once capture has stopped.
    /// Nothing is due after a failure.
    pub open spec fn next_cut(self) -> Option<int> {
        if self.failure is Some {
            None
        } else if self.pending().len() >= self.limit {
            Some(self.offset + split_point(self.pending(), self.limit))
        } else if self.closed && self.offset < self.samples.len() {
            Some(self.samples.len() as int)
        } else {
            None
        }
    }

    /// The piece of audio from the offset to `end`.
    pub open spec fn piece(self, end: int) -> Seq<i16> {
        self.samples.subrange(self.offset, end)
    }

    /// Deal with the pieces that are due, up to the first that is worth a
    /// request, which is then in flight. Pieces that are too short or silent are
    /// passed over.
    pub open spec fn settled(self) -> Self
        decreases self.samples.len() - self.offset,
        when self.in_bounds()
        via Self::settled_decreases
    {
        match self.next_cut() {
            Some(end) => if is_gated(self.piece(end), SAMPLE_RATE, MIN_REQUEST_MS) {
                (BatchState { offset: end, ..self }).settled()
            } else {
                BatchState { in_flight: Some(end), ..self }
            },
            None => self,
        }
    }

    #[via_fn]
    proof fn settled_decreases(self) {
        self.lemma_next_cut();
    }

    /// A piece that is due is not empty, lies within the audio, and fits one
    /// request.
    pub proof fn lemma_next_cut(self)
        requires
            self.in_bounds(),
        ensures
            self.next_cut() matches Some(end) ==> self.offset < end <= self.samples.len() && end
                - self.offset <= self.limit,
    {
        if self.pending().len() >= self.limit {
            law_split_in_bounds(self.pending(), self.limit);
        }
    }

    /// The batch with an event taken note of, before it deals with what is due.
    pub open spec fn noted(self, event: BatchEvent<E>) -> Self {
        match event {
            BatchEvent::Chunk(chunk) => BatchState { samples: self.samples + chunk@, ..self },
            BatchEvent::Closed => BatchState { closed: true, ..self },
            BatchEvent::Reply(text) => {
                let kept = accepted_text(text@, self.prompt);
                BatchState {
                    parts: if kept.len() > 0 {
                        self.parts.push(kept)
                    } else {
                        self.parts
                    },
                    ..self.landed()
                }
            },
            BatchEvent::TimedOut => BatchState {
                failure: Some(BatchError::TimedOut),
                ..self.landed()
            },
            BatchEvent::Failed(error) => BatchState {
                failure: Some(BatchError::Request(error)),
                ..self.landed()
            },
        }
    }

    /// The batch after an event.
    pub open spec fn after(self, event: BatchEvent<E>) -> Self {
        self.noted(event).settled()
    }

    /// The batch once its request in flight is over.
    pub open spec fn landed(self) -> Self {
        BatchState { offset: self.in_flight->0, in_flight: None, ..self }
    }

    /// Events that can happen: the outcome of a request while one is in flight,
    /// and capture events otherwise, until capture has stopped.
    pub open spec fn expects(self, event: BatchEvent<E>) -> bool {
        match event {
            BatchEvent::Chunk(_) | BatchEvent::Closed => self.in_flight is None && !self.closed,
            BatchEvent::Reply(_) | BatchEvent::TimedOut | BatchEvent::Failed(_) => self.in_flight
                is Some,
        }
    }

    /// The request in flight, if there is one, begins at the offset and lies
    /// within the audio.
    pub open spec fn well_formed(self) -> bool {
        &&& self.in_bounds()
        &&& self.in_flight matches Some(end) ==> self.offset < end <= self.samples.len()
    }

    /// What every batch keeps: everything due is dealt with or in flight, and
    /// what is in flight is due and worth a request.
    pub open spec fn valid(self) -> bool {
        &&& self.in_bounds()
        &&& self.in_flight == self.next_cut()
        &&& self.in_flight matches Some(end) ==> !is_gated(
            self.piece(end),
            SAMPLE_RATE,
            MIN_REQUEST_MS,
        )
    }

    /// The action that fits this state.
    pub open spec fn asks_for(self, action: BatchAction) -> bool {
        match action {
            BatchAction::Receive => self.in_flight is None && !self.closed,
            BatchAction::Transcribe(wav) => self.in_flight is Some && wav@ == wav_file(
                self.piece(self.in_flight->0),
            ),
            BatchAction::Finish => self.in_flight is None && self.closed,
        }
    }

    /// Dealing with what is due leaves a valid batch, and changes only how far
    /// the audio is dealt with.
    pub proof fn lemma_settled(self)
        requires
            self.in_bounds(),
            self.in_flight is None,
        ensures
            self.settled().valid(),
            self.settled().well_formed(),
            self.settled() == (BatchState {
                offset: self.settled().offset,
                in_flight: self.settled().in_flight,
                ..self
            }),
            self.offset <= self.settled().offset,
        decreases self.samples.len() - self.offset,
    {
        self.lemma_next_cut();
        match self.next_cut() {
            Some(end) => if is_gated(self.piece(end), SAMPLE_RATE, MIN_REQUEST_MS) {
                (BatchState { offset: end, ..self }).lemma_settled();
            } else {
                let next = BatchState { in_flight: Some(end), ..self };
                assert(next.pending() == self.pending());
                assert(next.piece(end) == self.piece(end));
            },
            None => {},
        }
        self.settled().lemma_next_cut();
    }
}

/// What to send for a piece of audio: nothing if it is gated, else a WAV file of
/// all its samples.
pub fn request_body(piece: &[i16], gated: bool) -> (body: Option<Vec<u8>>)
    requires
        !gated ==> 36 + 2 * piece@.len() <= u32::MAX,
    ensures
        body is None <==> gated,
        body matches Some(wav) ==> wav@ == wav_file(piece@),
{
    if gated {
        None
    } else {
        Some(encode_wav(piece).unwrap())
    }
}

/// A recording that is transcribed in the background, piece by piece.
pub struct Batch<E> {
    limit: usize,
    prompt: Option<String>,
    samples: Vec<i16>,
    offset: usize,
    in_flight: Option<usize>,
    closed: bool,
    parts: Vec<String>,
    failure: Option<BatchError<E>>,
}

impl<E> View for Batch<E> {
    type V = BatchState<E>;

    closed spec fn view(&self) -> BatchState<E> {
        BatchState {
            limit: self.limit as int,
            prompt: match self.prompt {
                Some(prompt) => Some(prompt@),
                None => None,
            },
            samples: self.samples@,
            offset: self.offset as int,
            in_flight: match self.in_flight {
                Some(end) => Some(end as int),
                None => None,
            },
            closed: self.closed,
            parts: texts(self.parts@),
            failure: self.failure,
        }
    }
}

impl<E> Batch<E> {
    /// Start a batch whose requests hold at most this many seconds of audio, and
    /// are sent along with this prompt.
    pub fn new(seconds: u64, prompt: Option<String>) -> (batch: Self)
        ensures
            batch@ == BatchState::<E>::initial(
                seconds,
                match prompt {
                    Some(prompt) => Some(prompt@),
                    None => None,
                },
            ),
            batch@.well_formed(),
            batch@.valid(),
    {
        let clamped: u64 = if seconds < 10 {
            10
        } else if seconds > 120 {
            120
        } else {
            seconds
        };
        let batch = Batch {
            limit: clamped as usize * SAMPLE_RATE as usize,
            prompt,
            samples: Vec::new(),
            offset: 0,
            in_flight: None,
            closed: false,
            parts: Vec::new(),
            failure: None,
        };
        assert(batch@.parts =~= Seq::empty());
        assert(batch@.pending().len() == 0);
        batch
    }

    /// Take note of an event, and tell what to do next.
    pub fn handle(&mut self, event: BatchEvent<E>) -> (action: BatchAction)
        requires
            old(self)@.well_formed(),
            old(self)@.expects(event),
        ensures
            final(self)@ == old(self)@.after(event),
            final(self)@.well_formed(),
            final(self)@.valid(),
            final(self)@.asks_for(action),
    {
        match event {
            BatchEvent::Chunk(chunk) => {
                let mut chunk: Vec<i16> = chunk;
                self.samples.append(&mut chunk);
            },
            BatchEvent::Closed => {
                self.closed = true;
            },
            BatchEvent::Reply(text) => {
                let kept: String = accept_text(
                    text.as_str(),
                    match &self.prompt {
                        Some(prompt) => Some(prompt.as_str()),
                        None => None,
                    },
                );
                self.land();
                if !kept.as_str().is_empty() {
                    let ghost before = self.parts@;
                    self.parts.push(kept);
                    assert(texts(self.parts@) =~= texts(before).push(kept@));
                }
            },
            BatchEvent::TimedOut => {
                self.land();
                self.failure = Some(BatchError::TimedOut);
            },
            BatchEvent::Failed(error) => {
                self.land();
                self.failure = Some(BatchError::Request(error));
            },
        }
        self.settle()
    }

    fn land(&mut self)
        requires
            old(self)@.in_flight is Some,
        ensures
            final(self)@ == old(self)@.landed(),
    {
        if let Some(end) = self.in_flight {
            self.offset = end;
        }
        self.in_flight = None;
    }

    fn cut(&self) -> (cut: Option<usize>)
        requires
            self@.in_bounds(),
        ensures
            self@.next_cut() == (match cut {
                Some(end) => Some(end as int),
                None => None,
            }),
    {
        let len: usize = self.samples.len();
        if self.failure.is_some() {
            return None;
        }
        if len - self.offset >= self.limit {
            let pending: &[i16] = &self.samples.as_slice()[self.offset..len];
            proof {
                law_split_in_bounds(self@.pending(), self@.limit);
            }
            Some(self.offset + split_at(pending, self.limit))
        } else if self.closed && self.offset < len {
            Some(len)
        } else {
            None
        }
    }

    fn settle(&mut self) -> (action: BatchAction)
        requires
            old(self)@.in_bounds(),
            old(self)@.in_flight is None,
        ensures
            final(self)@ == old(self)@.settled(),
            final(self)@.well_formed(),
            final(self)@.valid(),
            final(self)@.asks_for(action),
    {
        proof {
            self@.lemma_settled();
        }
        loop
            invariant
                self@.in_bounds(),
                self@.in_flight is None,
                self@.settled() == old(self)@.settled(),
                old(self)@.settled().valid(),
                old(self)@.settled().well_formed(),
            decreases self@.samples.len() - self@.offset,
        {
            proof {
                self@.lemma_next_cut();
            }
            match self.cut() {
                None => {
                    return if self.closed {
                        BatchAction::Finish
                    } else {
                        BatchAction::Receive
                    };
                },
                Some(end) => {
                    let piece: &[i16] = &self.samples.as_slice()[self.offset..end];
                    let gated: bool = audio_gate(piece, SAMPLE_RATE, MIN_REQUEST_MS);
                    match request_body(piece, gated) {
                        None => {
                            self.offset = end;
                        },
                        Some(wav) => {
                            self.in_flight = Some(end);
                            return BatchAction::Transcribe(wav);
                        },
                    }
                },
            }
        }
    }

    /// End the batch once nothing is left to do: all captured audio, and either
    /// the whole transcript or the first failure.
    pub fn finish(self) -> (r: (Vec<i16>, Result<String, BatchError<E>>))
        requires
            self@.closed,
            self@.in_flight is None,
        ensures
            r.0@ == self@.samples,
            r.1 is Ok <==> self@.failure is None,
            r.1 matches Ok(text) ==> text@ == joined(self@.parts, " "@),
            r.1 matches Err(error) ==> self@.failure == Some(error),
    {
        let text: String = join(&self.parts, " ");
        match self.failure {
            None => (self.samples, Ok(text)),
            Some(error) => (self.samples, Err(error)),
        }
    }
}

/// The message for a request that took longer than [`REQUEST_TIMEOUT_SECS`].
pub fn timeout_message() -> (message: String)
    ensures
        message@ == "background transcription timed out after 120 seconds"@,
{
    "background transcription timed out after 120 seconds".to_string()
}

} // verus!
