use whisrs::audio::capture::{encode_wav, SAMPLE_RATE};
use whisrs::transcription::chunked_batch::{
    request_body, timeout_message, Batch, BatchAction, BatchError, BatchEvent, MIN_REQUEST_MS,
    REQUEST_TIMEOUT_SECS,
};
use whisrs::transcription::reply::{accept_text, keep_text};
use whisrs::transcription::split::{quietest, split_at};

/// The samples that a WAV file holds.
fn wav_samples(wav: &[u8]) -> Vec<i16> {
    let reader = hound::WavReader::new(std::io::Cursor::new(wav)).unwrap();
    let spec = reader.spec();
    assert_eq!(spec.channels, 1);
    assert_eq!(spec.sample_rate, SAMPLE_RATE);
    assert_eq!(spec.bits_per_sample, 16);
    reader
        .into_samples::<i16>()
        .collect::<Result<Vec<_>, _>>()
        .unwrap()
}

/// A backend that records its requests and answers each with a numbered part.
struct Mock {
    calls: Vec<Vec<i16>>,
    fail: bool,
}

impl Mock {
    fn new(fail: bool) -> Mock {
        Mock {
            calls: Vec::new(),
            fail,
        }
    }

    fn transcribe(&mut self, wav: &[u8]) -> BatchEvent<String> {
        self.calls.push(wav_samples(wav));
        if self.fail {
            BatchEvent::Failed("test failure".to_string())
        } else {
            BatchEvent::Reply(format!("Part {}.", self.calls.len()))
        }
    }
}

/// Feed an event, and answer requests until the batch wants audio or is done.
fn feed(batch: &mut Batch<String>, backend: &mut Mock, event: BatchEvent<String>) -> BatchAction {
    let mut action = batch.handle(event);
    while let BatchAction::Transcribe(wav) = action {
        action = batch.handle(backend.transcribe(&wav));
    }
    action
}

fn run(
    chunks: Vec<Vec<i16>>,
    backend: &mut Mock,
    seconds: u64,
) -> (Vec<i16>, Result<String, BatchError<String>>) {
    let mut batch = Batch::new(seconds, None);
    for chunk in chunks {
        let action = feed(&mut batch, backend, BatchEvent::Chunk(chunk));
        assert!(matches!(action, BatchAction::Receive));
    }
    let action = feed(&mut batch, backend, BatchEvent::Closed);
    assert!(matches!(action, BatchAction::Finish));
    batch.finish()
}

#[test]
fn decodes_before_stop_and_preserves_every_sample() {
    let mut backend = Mock::new(false);
    let mut batch: Batch<String> = Batch::new(30, None);
    let samples: Vec<i16> = (0..65 * SAMPLE_RATE as usize)
        .map(|i| 1000 + (i % 3000) as i16)
        .collect();
    let action = feed(
        &mut batch,
        &mut backend,
        BatchEvent::Chunk(samples[..30 * SAMPLE_RATE as usize].to_vec()),
    );
    assert!(!backend.calls.is_empty());
    assert!(
        matches!(action, BatchAction::Receive),
        "waits for stop before returning text"
    );
    feed(
        &mut batch,
        &mut backend,
        BatchEvent::Chunk(samples[30 * SAMPLE_RATE as usize..].to_vec()),
    );
    let action = feed(&mut batch, &mut backend, BatchEvent::Closed);
    assert!(matches!(action, BatchAction::Finish));
    let (saved, text) = batch.finish();
    assert_eq!(saved, samples);
    assert_eq!(text.unwrap(), "Part 1. Part 2. Part 3.");
    assert!(backend
        .calls
        .iter()
        .all(|c| c.len() <= 30 * SAMPLE_RATE as usize));
    assert_eq!(
        backend.calls.concat(),
        samples,
        "no lost or duplicated boundary samples"
    );
}

#[test]
fn failure_retains_all_audio_and_returns_no_partial_success() {
    let mut backend = Mock::new(true);
    let samples: Vec<i16> = vec![4000; 65 * SAMPLE_RATE as usize];
    let chunks: Vec<Vec<i16>> = samples.chunks(1600).map(|part| part.to_vec()).collect();
    let (saved, result) = run(chunks, &mut backend, 30);
    assert_eq!(saved, samples);
    match result.unwrap_err() {
        BatchError::Request(error) => assert!(error.contains("test failure")),
        BatchError::TimedOut => panic!("a failed request is no timeout"),
    }
    assert_eq!(backend.calls.len(), 1);
}

#[test]
fn chunk_sizes_do_not_matter() {
    let samples: Vec<i16> = (0..37 * SAMPLE_RATE as usize)
        .map(|i| {
            if (i / 24000) % 5 == 3 {
                0
            } else {
                1000 + (i * 7 % 5000) as i16
            }
        })
        .collect();
    for fail in [false, true] {
        let mut whole = Mock::new(fail);
        let (saved, expected) = run(vec![samples.clone()], &mut whole, 10);
        assert_eq!(saved, samples);
        assert_eq!(expected.is_err(), fail);
        for size in [333, 1600, 70000, 160000] {
            let mut backend = Mock::new(fail);
            let chunks: Vec<Vec<i16>> = samples.chunks(size).map(|part| part.to_vec()).collect();
            let (saved, result) = run(chunks, &mut backend, 10);
            assert_eq!(saved, samples);
            assert_eq!(backend.calls, whole.calls);
            assert_eq!(result.ok(), expected.as_ref().ok().cloned());
        }
    }
}

#[test]
fn cuts_keep_away_from_the_ends_of_the_window() {
    let limit = 10 * SAMPLE_RATE as usize;
    let falling: Vec<i16> = (0..limit).map(|i| (30000 - i / 10) as i16).collect();
    assert_eq!(split_at(&falling, limit), limit - 800);
    let rising: Vec<i16> = (0..limit).map(|i| (1000 + i / 10) as i16).collect();
    assert_eq!(split_at(&rising, limit), limit - 80000 + 800);
}

#[test]
fn audio_outside_the_window_does_not_move_the_cut() {
    let limit = 10 * SAMPLE_RATE as usize;
    let mut samples: Vec<i16> = (0..limit).map(|i| (i * 31 % 9000) as i16).collect();
    let cut = split_at(&samples, limit);
    samples.extend(vec![0; limit]);
    assert_eq!(split_at(&samples, limit), cut);
    samples[..limit - 80000].fill(0);
    assert_eq!(split_at(&samples, limit), cut);
}

#[test]
fn short_speech_with_pauses_is_one_request() {
    let samples: Vec<i16> = (0..100000)
        .map(|i| if i % 3 == 0 { 0 } else { 2000 })
        .collect();
    let mut backend = Mock::new(false);
    let (saved, text) = run(vec![samples.clone()], &mut backend, 10);
    assert_eq!(saved, samples);
    assert_eq!(text.unwrap(), "Part 1.");
    assert_eq!(backend.calls, vec![samples]);
}

#[test]
fn short_recording_is_one_request_and_silence_is_skipped() {
    for samples in [vec![3000; 16000], vec![0; 65 * 16000], vec![]] {
        let mut backend = Mock::new(false);
        let (saved, text) = run(vec![samples.clone()], &mut backend, 30);
        assert_eq!(saved, samples);
        assert_eq!(
            backend.calls.len(),
            usize::from(samples.first() == Some(&3000))
        );
        assert!(text.is_ok());
    }
}

#[test]
fn prefers_pause_near_boundary() {
    let mut samples = vec![4000; 30 * 16000];
    samples[28 * 16000..28 * 16000 + 1600].fill(0);
    assert_eq!(split_at(&samples, samples.len()), 28 * 16000 + 800);
}

#[test]
fn timeout_preserves_audio_for_recovery() {
    let samples: Vec<i16> = vec![4000; 16000];
    let mut batch: Batch<String> = Batch::new(30, None);
    assert!(matches!(
        batch.handle(BatchEvent::Chunk(samples.clone())),
        BatchAction::Receive
    ));
    assert!(matches!(
        batch.handle(BatchEvent::Closed),
        BatchAction::Transcribe(_)
    ));
    assert!(matches!(
        batch.handle(BatchEvent::TimedOut),
        BatchAction::Finish
    ));
    let (saved, result) = batch.finish();
    assert_eq!(saved, samples);
    assert!(matches!(result, Err(BatchError::TimedOut)));
    assert!(timeout_message().contains("timed out"));
}

#[test]
fn timeout_message_names_the_timeout() {
    assert_eq!(REQUEST_TIMEOUT_SECS, 120);
    assert_eq!(
        timeout_message(),
        "background transcription timed out after 120 seconds"
    );
}

/// The frame that the float energies themselves pick.
fn reference_split(samples: &[i16], limit: usize) -> usize {
    let frame = SAMPLE_RATE as usize / 10;
    let start = limit.saturating_sub(5 * SAMPLE_RATE as usize).max(frame);
    let quiet = samples[start..limit]
        .chunks_exact(frame)
        .enumerate()
        .min_by(|(_, a), (_, b)| {
            audio_silence_gate::rms_energy(a).total_cmp(&audio_silence_gate::rms_energy(b))
        })
        .map(|(index, _)| start + index * frame + frame / 2);
    quiet.unwrap_or(limit)
}

#[test]
fn split_agrees_with_float_energies() {
    let mut state: u32 = 12345;
    let samples: Vec<i16> = (0..20 * 16000)
        .map(|_| {
            state = state.wrapping_mul(1664525).wrapping_add(1013904223);
            (state >> 16) as i16
        })
        .collect();
    for limit in [1600, 2000, 3199, 3200, 5000, 80000, 81600, 81601, 100_000, 160_000, 320_000] {
        let cut = split_at(&samples, limit);
        assert!(0 < cut && cut <= limit);
        assert_eq!(cut, reference_split(&samples, limit), "limit {}", limit);
    }
}

#[test]
fn split_takes_the_first_of_equally_quiet_frames() {
    let samples = vec![4000; 10 * 16000];
    assert_eq!(split_at(&samples, 160_000), 80_000 + 800);
    assert_eq!(quietest(&vec![5, 3, 4, 3]), 1);
    assert_eq!(quietest(&vec![7]), 0);
}

#[test]
fn split_without_a_whole_frame_is_at_the_limit() {
    let samples = vec![4000; 16000];
    assert_eq!(split_at(&samples, 1600), 1600);
    assert_eq!(split_at(&samples, 3199), 3199);
    assert_eq!(split_at(&samples, 3200), 2400);
}

#[test]
fn seconds_are_clamped() {
    // With less than ten seconds asked for, a request may hold ten.
    let mut batch: Batch<String> = Batch::new(1, None);
    assert!(matches!(
        batch.handle(BatchEvent::Chunk(vec![4000; 10 * 16000 - 1])),
        BatchAction::Receive
    ));
    assert!(matches!(
        batch.handle(BatchEvent::Chunk(vec![4000; 1])),
        BatchAction::Transcribe(_)
    ));
    // With more than two minutes asked for, a request may hold two minutes.
    let mut batch: Batch<String> = Batch::new(u64::MAX, None);
    assert!(matches!(
        batch.handle(BatchEvent::Chunk(vec![4000; 120 * 16000 - 1])),
        BatchAction::Receive
    ));
    match batch.handle(BatchEvent::Chunk(vec![4000; 1])) {
        BatchAction::Transcribe(wav) => assert!(wav_samples(&wav).len() <= 120 * 16000),
        other => panic!("no request: {:?}", other),
    }
}

#[test]
fn capture_goes_on_after_a_failure() {
    let mut batch: Batch<String> = Batch::new(10, None);
    assert!(matches!(
        batch.handle(BatchEvent::Chunk(vec![4000; 10 * 16000])),
        BatchAction::Transcribe(_)
    ));
    assert!(matches!(
        batch.handle(BatchEvent::Failed("first".to_string())),
        BatchAction::Receive
    ));
    assert!(matches!(
        batch.handle(BatchEvent::Chunk(vec![3000; 30 * 16000])),
        BatchAction::Receive
    ));
    assert!(matches!(
        batch.handle(BatchEvent::Closed),
        BatchAction::Finish
    ));
    let (saved, result) = batch.finish();
    assert_eq!(saved.len(), 40 * 16000);
    assert!(matches!(result, Err(BatchError::Request(error)) if error == "first"));
}

#[test]
fn silent_pieces_are_passed_over() {
    let mut backend = Mock::new(false);
    let mut samples = vec![4000; 10 * 16000];
    samples.extend(vec![0; 40 * 16000]);
    samples.extend(vec![4000; 10 * 16000]);
    let (saved, text) = run(vec![samples.clone()], &mut backend, 10);
    assert_eq!(saved, samples);
    assert_eq!(text.unwrap(), "Part 1. Part 2. Part 3. Part 4.");
    let loud: usize = backend
        .calls
        .iter()
        .map(|call| call.iter().filter(|s| **s != 0).count())
        .sum();
    assert_eq!(loud, 20 * 16000);
}

#[test]
fn audio_below_the_minimum_is_not_sent() {
    assert_eq!(MIN_REQUEST_MS, 300);
    for (len, calls) in [(4799, 0), (4800, 1)] {
        let mut backend = Mock::new(false);
        let (_, text) = run(vec![vec![4000; len]], &mut backend, 30);
        assert_eq!(backend.calls.len(), calls);
        assert_eq!(text.unwrap(), ["", "Part 1."][calls]);
    }
}

#[test]
fn quiet_audio_is_not_sent() {
    // The threshold is 0.003 of full scale, about 98.3.
    for (level, calls) in [(98, 0), (99, 1)] {
        let mut backend = Mock::new(false);
        run(vec![vec![level; 16000]], &mut backend, 30).1.unwrap();
        assert_eq!(backend.calls.len(), calls);
    }
}

#[test]
fn empty_replies_leave_no_gap() {
    let mut batch: Batch<String> = Batch::new(10, None);
    batch.handle(BatchEvent::Chunk(vec![4000; 10 * 16000]));
    batch.handle(BatchEvent::Reply("  one \n".to_string()));
    batch.handle(BatchEvent::Chunk(vec![4000; 10 * 16000]));
    batch.handle(BatchEvent::Reply(" \t ".to_string()));
    batch.handle(BatchEvent::Closed);
    batch.handle(BatchEvent::Reply("two".to_string()));
    let (_, text) = batch.finish();
    assert_eq!(text.unwrap(), "one two");
}

#[test]
fn prompt_echo_is_dropped() {
    let prompt = "John Doe speaking. Professional, culinary register: French pastry.";
    assert_eq!(accept_text(" John Doe speaking. Professional, culinary ", Some(prompt)), "");
    assert_eq!(accept_text(" I bake sourdough. ", Some(prompt)), "I bake sourdough.");
    assert_eq!(accept_text(" John Doe speaking. ", None), "John Doe speaking.");
    assert_eq!(accept_text(" John Doe speaking. ", Some("")), "John Doe speaking.");
    assert_eq!(keep_text(" text ", true), "");
    assert_eq!(keep_text(" text ", false), "text");

    let mut batch: Batch<String> = Batch::new(10, Some(prompt.to_string()));
    batch.handle(BatchEvent::Chunk(vec![4000; 16000]));
    batch.handle(BatchEvent::Closed);
    batch.handle(BatchEvent::Reply(prompt.to_string()));
    assert_eq!(batch.finish().1.unwrap(), "");
}

#[test]
fn request_body_is_a_wav_file() {
    let piece: Vec<i16> = vec![0, 1, -1, 32767, -32768];
    assert!(request_body(&piece, true).is_none());
    assert_eq!(wav_samples(&request_body(&piece, false).unwrap()), piece);
}

#[test]
fn wav_files_match_those_of_hound() {
    let samples: Vec<i16> = (-3000..3000).map(|i| (i * 11) as i16).collect();
    for len in [0, 1, 2, 1600, 6000] {
        let spec = hound::WavSpec {
            channels: 1,
            sample_rate: SAMPLE_RATE,
            bits_per_sample: 16,
            sample_format: hound::SampleFormat::Int,
        };
        let mut cursor = std::io::Cursor::new(Vec::new());
        let mut writer = hound::WavWriter::new(&mut cursor, spec).unwrap();
        for sample in &samples[..len] {
            writer.write_sample(*sample).unwrap();
        }
        writer.finalize().unwrap();
        assert_eq!(encode_wav(&samples[..len]).unwrap(), cursor.into_inner());
    }
}

#[test]
fn silence_threshold_is_that_of_the_gate() {
    assert_eq!(
        whisrs::audio::gate::SILENCE_RMS_BITS,
        audio_silence_gate::SILENCE_RMS_THRESHOLD.to_bits()
    );
}
