//! Captured audio: its sample rate, its input devices and its WAV encoding.

use vstd::prelude::*;

verus! {

/// Sample rate of every recording, in Hz.
pub const SAMPLE_RATE: u32 = 16000;

/// An input device that the user can pick.
#[derive(Debug)]
pub struct InputDeviceChoice {
    /// Name under which the device is opened and stored in the configuration.
    pub id: String,
    /// Name shown to the user.
    pub label: String,
}

impl Clone for InputDeviceChoice {
    fn clone(&self) -> (copy: Self)
        ensures
            copy.id@ == self.id@,
            copy.label@ == self.label@,
    {
        InputDeviceChoice { id: self.id.clone(), label: self.label.clone() }
    }
}

/// A recording whose WAV file would not fit the format's 32-bit sizes.
#[derive(Debug, Clone, Copy, PartialEq, Eq, Structural)]
pub struct WavTooLong;

/// Number of bytes in front of the samples of a WAV file.
pub const WAV_HEADER_LEN: usize = 44;

/// The `width` low bytes of `n`, least significant first.
pub open spec fn le_bytes(n: nat, width: nat) -> Seq<u8>
    decreases width,
{
    if width == 0 {
        Seq::empty()
    } else {
        seq![(n % 256) as u8] + le_bytes(n / 256, (width - 1) as nat)
    }
}

/// The two's complement of a sample, as a number below 65536.
pub open spec fn sample_word(sample: i16) -> nat {
    if sample < 0 {
        (sample + 65536) as nat
    } else {
        sample as nat
    }
}

/// The samples as 16-bit little-endian words.
pub open spec fn pcm_bytes(samples: Seq<i16>) -> Seq<u8>
    decreases samples.len(),
{
    if samples.len() == 0 {
        Seq::empty()
    } else {
        pcm_bytes(samples.drop_last()) + le_bytes(sample_word(samples.last()), 2)
    }
}

/// The bytes in front of `len` samples: a RIFF header, the format chunk for
/// 16-bit mono PCM at [`SAMPLE_RATE`], and the header of the data chunk.
pub open spec fn wav_header(len: nat) -> Seq<u8> {
    seq![0x52u8, 0x49, 0x46, 0x46]  // RIFF
     + le_bytes(36 + 2 * len, 4)
        + seq![0x57u8, 0x41, 0x56, 0x45]  // WAVE
     + seq![0x66u8, 0x6D, 0x74, 0x20]  // fmt
     + le_bytes(16, 4)  // length of the format chunk
     + le_bytes(1, 2)  // PCM
     + le_bytes(1, 2)  // channels
     + le_bytes(SAMPLE_RATE as nat, 4)
        + le_bytes(2 * SAMPLE_RATE as nat, 4)  // bytes per second
     + le_bytes(2, 2)  // bytes per frame
     + le_bytes(16, 2)  // bits per sample
     + seq![0x64u8, 0x61, 0x74, 0x61]  // data
     + le_bytes(2 * len, 4)
}

/// The WAV file that holds these samples.
pub open spec fn wav_file(samples: Seq<i16>) -> Seq<u8> {
    wav_header(samples.len()) + pcm_bytes(samples)
}

/// The sample that two little-endian bytes hold.
pub open spec fn sample_of(low: u8, high: u8) -> int {
    let word: int = low + 256 * high;
    if word < 32768 {
        word
    } else {
        word - 65536
    }
}

proof fn lemma_le_bytes_len(n: nat, width: nat)
    ensures
        le_bytes(n, width).len() == width,
    decreases width,
{
    if width > 0 {
        lemma_le_bytes_len(n / 256, (width - 1) as nat);
    }
}

/// The header of a WAV file has [`WAV_HEADER_LEN`] bytes.
pub proof fn lemma_wav_header_len(len: nat)
    ensures
        wav_header(len).len() == WAV_HEADER_LEN,
{
    lemma_le_bytes_len(36 + 2 * len, 4);
    lemma_le_bytes_len(16, 4);
    lemma_le_bytes_len(1, 2);
    lemma_le_bytes_len(SAMPLE_RATE as nat, 4);
    lemma_le_bytes_len(2 * SAMPLE_RATE as nat, 4);
    lemma_le_bytes_len(2, 2);
    lemma_le_bytes_len(16, 2);
    lemma_le_bytes_len(2 * len, 4);
}

proof fn lemma_pcm_bytes(samples: Seq<i16>, i: int)
    requires
        0 <= i < samples.len(),
    ensures
        pcm_bytes(samples).len() == 2 * samples.len(),
        sample_of(pcm_bytes(samples)[2 * i], pcm_bytes(samples)[2 * i + 1]) == samples[i],
    decreases samples.len(),
{
    let front = samples.drop_last();
    let word = sample_word(samples.last());
    let tail = le_bytes(word, 2);
    reveal_with_fuel(le_bytes, 3);
    assert(tail.len() == 2 && tail[0] == word % 256 && tail[1] == word / 256);
    if front.len() > 0 {
        lemma_pcm_bytes(front, if i < front.len() {
            i
        } else {
            0
        });
    }
    assert(pcm_bytes(samples).len() == 2 * samples.len());
    if i < front.len() {
        assert(pcm_bytes(samples)[2 * i] == pcm_bytes(front)[2 * i]);
        assert(pcm_bytes(samples)[2 * i + 1] == pcm_bytes(front)[2 * i + 1]);
    } else {
        assert(pcm_bytes(samples)[2 * i] == tail[0]);
        assert(pcm_bytes(samples)[2 * i + 1] == tail[1]);
    }
}

/// A WAV file has the header and two bytes for each sample, and every sample
/// can be read back from its two bytes.
pub proof fn law_wav_round_trip(samples: Seq<i16>)
    ensures
        wav_file(samples).len() == WAV_HEADER_LEN + 2 * samples.len(),
        forall|i: int|
            0 <= i < samples.len() ==> sample_of(
                wav_file(samples)[WAV_HEADER_LEN + 2 * i],
                wav_file(samples)[WAV_HEADER_LEN + 2 * i + 1],
            ) == #[trigger] samples[i],
{
    lemma_wav_header_len(samples.len());
    if samples.len() > 0 {
        lemma_pcm_bytes(samples, 0);
    }
    assert forall|i: int| 0 <= i < samples.len() implies sample_of(
        wav_file(samples)[WAV_HEADER_LEN + 2 * i],
        wav_file(samples)[WAV_HEADER_LEN + 2 * i + 1],
    ) == #[trigger] samples[i] by {
        lemma_pcm_bytes(samples, i);
    }
}

fn push_le(out: &mut Vec<u8>, n: u32, width: usize)
    ensures
        final(out)@ == old(out)@ + le_bytes(n as nat, width as nat),
{
    let mut rest: u32 = n;
    let mut left: usize = width;
    let ghost before = out@;
    while left > 0
        invariant
            before + le_bytes(n as nat, width as nat) =~= out@ + le_bytes(rest as nat, left as nat),
        decreases left,
    {
        out.push((rest % 256) as u8);
        rest = rest / 256;
        left -= 1;
    }
}

fn push_tag(out: &mut Vec<u8>, a: u8, b: u8, c: u8, d: u8)
    ensures
        final(out)@ == old(out)@ + seq![a, b, c, d],
{
    out.push(a);
    out.push(b);
    out.push(c);
    out.push(d);
}

/// Encode a recording as a WAV file: 16-bit mono PCM at [`SAMPLE_RATE`].
pub fn encode_wav(samples: &[i16]) -> (r: Result<Vec<u8>, WavTooLong>)
    ensures
        r is Ok <==> 36 + 2 * samples@.len() <= u32::MAX,
        r matches Ok(bytes) ==> bytes@ == wav_file(samples@),
{
    let len: usize = samples.len();
    if len > 2147483629 {
        return Err(WavTooLong);
    }
    let data_len: u32 = 2 * (len as u32);
    let mut out: Vec<u8> = Vec::new();
    push_tag(&mut out, 0x52, 0x49, 0x46, 0x46);
    push_le(&mut out, 36 + data_len, 4);
    push_tag(&mut out, 0x57, 0x41, 0x56, 0x45);
    push_tag(&mut out, 0x66, 0x6D, 0x74, 0x20);
    push_le(&mut out, 16, 4);
    push_le(&mut out, 1, 2);
    push_le(&mut out, 1, 2);
    push_le(&mut out, SAMPLE_RATE, 4);
    push_le(&mut out, 2 * SAMPLE_RATE, 4);
    push_le(&mut out, 2, 2);
    push_le(&mut out, 16, 2);
    push_tag(&mut out, 0x64, 0x61, 0x74, 0x61);
    push_le(&mut out, data_len, 4);
    assert(out@ =~= wav_header(samples@.len()));
    let mut i: usize = 0;
    while i < len
        invariant
            i <= len == samples@.len(),
            out@ =~= wav_header(samples@.len()) + pcm_bytes(samples@.take(i as int)),
        decreases len - i,
    {
        let sample: i16 = samples[i];
        let word: u32 = if sample < 0 {
            (sample as i32 + 65536) as u32
        } else {
            sample as u32
        };
        push_le(&mut out, word, 2);
        proof {
            let done = samples@.take(i + 1);
            assert(done.drop_last() =~= samples@.take(i as int));
            assert(done.last() == sample);
        }
        i += 1;
    }
    assert(samples@.take(len as int) =~= samples@);
    Ok(out)
}

/// The number that four bytes hold, least significant first.
pub open spec fn number_at(bytes: Seq<u8>, at: int) -> int {
    bytes[at] + 0x100 * bytes[at + 1] + 0x1_0000 * bytes[at + 2] + 0x100_0000 * bytes[at + 3]
}

proof fn lemma_number(n: nat)
    requires
        n <= u32::MAX,
    ensures
        le_bytes(n, 4).len() == 4,
        number_at(le_bytes(n, 4), 0) == n,
        le_bytes(n, 2).len() == 2,
        n < 65536 ==> le_bytes(n, 2)[0] + 256 * le_bytes(n, 2)[1] == n,
{
    reveal_with_fuel(le_bytes, 5);
    assert(n / 256 / 256 / 256 < 256);
}

/// [`encode_wav`] writes a RIFF file: the tags, the sizes, 16-bit mono PCM at 16000
/// samples and 32000 bytes per second, and then each sample in two bytes, the low
/// one first. It does so for every recording whose sizes fit 32 bits.
pub proof fn law_encode_wav(samples: &[i16], r: Result<Vec<u8>, WavTooLong>)
    requires
        call_ensures(encode_wav, (samples,), r),
    ensures
        call_requires(encode_wav, (samples,)),
        r is Ok <==> 36 + 2 * samples@.len() <= 0xFFFF_FFFF,
        r matches Ok(wav) ==> {
            let bytes = wav@;
            let n = samples@.len();
            &&& bytes.len() == 44 + 2 * n
            &&& bytes.subrange(0, 4) == seq![0x52u8, 0x49, 0x46, 0x46]
            &&& number_at(bytes, 4) == 36 + 2 * n
            &&& bytes.subrange(8, 16) == seq![
                0x57u8,
                0x41,
                0x56,
                0x45,
                0x66,
                0x6D,
                0x74,
                0x20,
            ]
            &&& number_at(bytes, 16) == 16
            &&& bytes.subrange(20, 24) == seq![1u8, 0, 1, 0]
            &&& number_at(bytes, 24) == 16000
            &&& number_at(bytes, 28) == 32000
            &&& bytes.subrange(32, 36) == seq![2u8, 0, 16, 0]
            &&& bytes.subrange(36, 40) == seq![0x64u8, 0x61, 0x74, 0x61]
            &&& number_at(bytes, 40) == 2 * n
            &&& forall|i: int|
                0 <= i < n ==> bytes[44 + 2 * i] + 256 * bytes[45 + 2 * i] == (
                #[trigger] samples@[i] + 65536) % 65536
        },
{
    if let Ok(wav) = r {
        let n = samples@.len();
        let header = wav_header(n);
        lemma_wav_header_len(n);
        lemma_number(36 + 2 * n);
        lemma_number(16);
        lemma_number(1);
        lemma_number(16000);
        lemma_number(32000);
        lemma_number(2);
        lemma_number(2 * n);
        assert(number_at(header, 4) == number_at(le_bytes(36 + 2 * n, 4), 0));
        assert(number_at(header, 16) == number_at(le_bytes(16, 4), 0));
        assert(number_at(header, 24) == number_at(le_bytes(16000, 4), 0));
        assert(number_at(header, 28) == number_at(le_bytes(32000, 4), 0));
        assert(number_at(header, 40) == number_at(le_bytes(2 * n, 4), 0));
        assert(header[20] == le_bytes(1, 2)[0] && header[21] == le_bytes(1, 2)[1]);
        assert(header[22] == le_bytes(1, 2)[0] && header[23] == le_bytes(1, 2)[1]);
        assert(header[32] == le_bytes(2, 2)[0] && header[33] == le_bytes(2, 2)[1]);
        assert(header[34] == le_bytes(16, 2)[0] && header[35] == le_bytes(16, 2)[1]);
        law_wav_round_trip(samples@);
        assert forall|i: int| 0 <= i < 44 implies wav@[i] == #[trigger] header[i] by {}
        assert forall|i: int| 0 <= i < n implies wav@[44 + 2 * i] + 256 * wav@[45 + 2 * i] == (
        #[trigger] samples@[i] + 65536) % 65536 by {
            assert(sample_of(wav@[WAV_HEADER_LEN + 2 * i], wav@[WAV_HEADER_LEN + 2 * i + 1])
                == samples@[i]);
        }
    }
}

/// A copy of a device has the same id and label.
pub proof fn law_copied_device(device: &InputDeviceChoice, copy: InputDeviceChoice)
    requires
        call_ensures(InputDeviceChoice::clone, (device,), copy),
    ensures
        copy.id@ == device.id@,
        copy.label@ == device.label@,
{
}

} // verus!
