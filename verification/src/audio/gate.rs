//! Loudness of captured audio, as measured by `audio_silence_gate`.

use vstd::prelude::*;

verus! {

/// Bit pattern of the `f64` that `audio_silence_gate::rms_energy` returns for
/// these samples.
pub uninterp spec fn rms_energy_bits(samples: Seq<i16>) -> u64;

/// Bit pattern of `audio_silence_gate::SILENCE_RMS_THRESHOLD`, which is `0.003`.
pub const SILENCE_RMS_BITS: u64 = 0x3F68_9374_BC6A_7EFA;

/// Most samples whose squares an `f64` sums without rounding.
pub const MAX_EXACT_LEN: usize = 8388608;

/// The squares of all samples, added up.
pub open spec fn sum_of_squares(samples: Seq<i16>) -> int
    decreases samples.len(),
{
    if samples.len() == 0 {
        0
    } else {
        sum_of_squares(samples.drop_last()) + samples.last() * samples.last()
    }
}

/// Every sample is zero: digital silence.
pub open spec fn is_digital_silence(samples: Seq<i16>) -> bool {
    forall|i: int| 0 <= i < samples.len() ==> #[trigger] samples[i] == 0
}

/// Every sample lies between `-level` and `level`.
pub open spec fn is_within(samples: Seq<i16>, level: int) -> bool {
    forall|i: int| 0 <= i < samples.len() ==> -level <= #[trigger] samples[i] <= level
}

/// Every sample is at least `level` away from zero.
pub open spec fn is_beyond(samples: Seq<i16>, level: int) -> bool {
    forall|i: int|
        0 <= i < samples.len() ==> #[trigger] samples[i] <= -level || samples[i] >= level
}

/// The energy is below the silence threshold, `0.003` of the full scale of 32767.
///
/// The square of that is about 9663.09: a smaller mean square is quiet, a larger
/// one is not. Where the mean square lies between 9663 and 9664, or the samples
/// are too many for an exact sum, the energy itself decides.
pub open spec fn is_quiet(samples: Seq<i16>) -> bool {
    if samples.len() <= MAX_EXACT_LEN && sum_of_squares(samples) <= 9663 * samples.len() {
        true
    } else if samples.len() <= MAX_EXACT_LEN && sum_of_squares(samples) >= 9664 * samples.len() {
        false
    } else {
        rms_energy_bits(samples) < SILENCE_RMS_BITS
    }
}

/// Length of a recording in whole milliseconds, as `audio_gate_reason` takes it.
pub open spec fn duration_ms(len: nat, sample_rate: u32) -> int {
    let scaled: int = if len * 1000 <= u64::MAX {
        (len * 1000) as int
    } else {
        u64::MAX as int
    };
    scaled / (sample_rate as int)
}

/// A recording that is not worth a transcription request: empty, without a
/// sample rate, shorter than `min_duration_ms`, or below the silence threshold.
pub open spec fn is_gated(samples: Seq<i16>, sample_rate: u32, min_duration_ms: u64) -> bool {
    ||| samples.len() == 0
    ||| sample_rate == 0
    ||| duration_ms(samples.len(), sample_rate) < min_duration_ms
    ||| is_quiet(samples)
}

/// A sum of squares is never negative, and zero for digital silence alone.
pub proof fn lemma_sum_of_squares(samples: Seq<i16>)
    ensures
        sum_of_squares(samples) >= 0,
        sum_of_squares(samples) == 0 <==> is_digital_silence(samples),
    decreases samples.len(),
{
    if samples.len() > 0 {
        let front = samples.drop_last();
        let last = samples.last() as int;
        lemma_sum_of_squares(front);
        assert(last * last >= 0 && (last * last == 0 <==> last == 0)) by (nonlinear_arith);
        assert forall|i: int| 0 <= i < front.len() implies front[i] == #[trigger] samples[i] by {}
        if is_digital_silence(samples) {
            assert(samples[samples.len() - 1] == 0);
        }
    }
}

/// The mean square of samples within a level is at most the square of the level.
pub proof fn lemma_mean_square_within(samples: Seq<i16>, level: int)
    requires
        is_within(samples, level),
        0 <= level,
    ensures
        sum_of_squares(samples) <= level * level * samples.len(),
    decreases samples.len(),
{
    if samples.len() > 0 {
        let front = samples.drop_last();
        let last = samples[samples.len() - 1] as int;
        assert forall|i: int| 0 <= i < front.len() implies -level <= #[trigger] front[i]
            <= level by {
            assert(front[i] == samples[i]);
        }
        lemma_mean_square_within(front, level);
        assert(last * last <= level * level) by (nonlinear_arith)
            requires
                -level <= last <= level,
        ;
        assert(level * level * front.len() + level * level == level * level * samples.len())
            by (nonlinear_arith)
            requires
                front.len() + 1 == samples.len(),
        ;
    } else {
        assert(level * level * 0 == 0) by (nonlinear_arith);
    }
}

/// The mean square of samples beyond a level is at least the square of the level.
pub proof fn lemma_mean_square_beyond(samples: Seq<i16>, level: int)
    requires
        is_beyond(samples, level),
        0 <= level,
    ensures
        sum_of_squares(samples) >= level * level * samples.len(),
    decreases samples.len(),
{
    if samples.len() > 0 {
        let front = samples.drop_last();
        let last = samples[samples.len() - 1] as int;
        assert forall|i: int| 0 <= i < front.len() implies #[trigger] front[i] <= -level
            || front[i] >= level by {
            assert(front[i] == samples[i]);
        }
        lemma_mean_square_beyond(front, level);
        assert(last * last >= level * level) by (nonlinear_arith)
            requires
                last <= -level || last >= level,
                0 <= level,
        ;
        assert(level * level * front.len() + level * level == level * level * samples.len())
            by (nonlinear_arith)
            requires
                front.len() + 1 == samples.len(),
        ;
    } else {
        assert(level * level * 0 == 0) by (nonlinear_arith);
    }
}

/// Samples that stay within 98 are quiet, and samples that stay beyond it are
/// not.
pub proof fn law_quiet_levels(samples: Seq<i16>)
    requires
        0 < samples.len() <= MAX_EXACT_LEN,
    ensures
        is_within(samples, 98) ==> is_quiet(samples),
        is_beyond(samples, 99) ==> !is_quiet(samples),
{
    if is_within(samples, 98) {
        lemma_mean_square_within(samples, 98);
    }
    if is_beyond(samples, 99) {
        lemma_mean_square_beyond(samples, 99);
    }
}

/// Calls `audio_silence_gate::rms_energy` and hands its `f64` back as a bit
/// pattern.
///
/// The energy depends on the samples alone. It is the root of their mean square
/// over full scale, so it is neither negative nor a NaN, and bit patterns are
/// ordered as `f64::total_cmp` orders the energies. Of two short pieces of equal
/// length, the one with the smaller sum of squares has the smaller energy: the
/// sums are exact, and differ by too much for the rounding of the quotient and
/// the root to make them equal.
#[verifier::external_body]
pub(crate) fn rms_energy(samples: &[i16]) -> (bits: u64)
    ensures
        bits == rms_energy_bits(samples@),
        samples@.len() <= 65536 ==> forall|other: Seq<i16>|
            other.len() == samples@.len() ==> (#[trigger] rms_energy_bits(other) < bits
                <==> sum_of_squares(other) < sum_of_squares(samples@)),
{
    audio_silence_gate::rms_energy(samples).to_bits()
}

/// Calls `audio_silence_gate::audio_gate_reason` with the crate's own silence
/// threshold, and tells whether it gave a reason to drop the recording.
///
/// The threshold test compares the energy with the threshold. Neither is
/// negative, so comparing their bit patterns says the same; and a mean square
/// that is not between 9663 and 9664 decides it, for rounding moves the energy
/// by far less than that.
#[verifier::external_body]
pub(crate) fn audio_gate(samples: &[i16], sample_rate: u32, min_duration_ms: u64) -> (gated: bool)
    ensures
        gated == is_gated(samples@, sample_rate, min_duration_ms),
{
    audio_silence_gate::audio_gate_reason(
        samples,
        sample_rate,
        min_duration_ms,
        audio_silence_gate::SILENCE_RMS_THRESHOLD,
    ).is_some()
}

/// Each sample adds its square to the sum.
pub proof fn law_sum_of_squares(samples: Seq<i16>, sample: i16)
    ensures
        sum_of_squares(Seq::empty()) == 0,
        sum_of_squares(samples.push(sample)) == sum_of_squares(samples) + sample * sample,
{
    assert(samples.push(sample).drop_last() =~= samples);
}

/// At 16000 samples per second and a minimum of 300 ms, a piece is passed over if
/// it has fewer than 4800 samples or a mean square of at most 9663, and is not if
/// it has 4800 or more and a mean square of at least 9664.
pub proof fn law_gate(samples: Seq<i16>)
    requires
        samples.len() <= 8388608,
    ensures
        samples.len() < 4800 ==> is_gated(samples, 16000, 300),
        sum_of_squares(samples) <= 9663 * samples.len() ==> is_gated(samples, 16000, 300),
        4800 <= samples.len() && sum_of_squares(samples) >= 9664 * samples.len() ==> !is_gated(
            samples,
            16000,
            300,
        ),
{
}

} // verus!
