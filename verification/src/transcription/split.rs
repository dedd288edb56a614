//! Where a long recording is cut: at the quietest moment near the limit.

use vstd::prelude::*;

use crate::audio::capture::SAMPLE_RATE;
use crate::audio::gate::{
    is_digital_silence, lemma_sum_of_squares, rms_energy, rms_energy_bits, sum_of_squares,
};

verus! {

/// Samples in a frame of 100 ms.
pub const FRAME: usize = 1600;

/// Samples in the five seconds in front of the limit in which a cut is sought.
pub const WINDOW: usize = 80000;

/// Where the search for a cut begins: five seconds before the limit, but never
/// inside the first frame.
pub open spec fn window_start(limit: int) -> int {
    if limit - WINDOW > FRAME {
        limit - WINDOW
    } else {
        FRAME as int
    }
}

/// Number of whole frames between the start of the window and the limit.
pub open spec fn window_frames(limit: int) -> int {
    (limit - window_start(limit)) / (FRAME as int)
}

/// The `i`-th frame of the window.
pub open spec fn window_frame(samples: Seq<i16>, limit: int, i: int) -> Seq<i16> {
    samples.subrange(window_start(limit) + i * FRAME, window_start(limit) + i * FRAME + FRAME)
}

/// Loudness of the `i`-th frame of the window. Frames are equally long, so their
/// sums of squares compare as their energies do.
pub open spec fn loudness(samples: Seq<i16>, limit: int, i: int) -> int {
    sum_of_squares(window_frame(samples, limit, i))
}

/// No frame of the window is quieter than the `i`-th, and every earlier one is
/// louder.
pub open spec fn is_quietest(samples: Seq<i16>, limit: int, i: int) -> bool {
    &&& 0 <= i < window_frames(limit)
    &&& forall|j: int|
        0 <= j < window_frames(limit) ==> loudness(samples, limit, i) <= #[trigger] loudness(
            samples,
            limit,
            j,
        )
    &&& forall|j: int|
        0 <= j < i ==> loudness(samples, limit, i) < #[trigger] loudness(samples, limit, j)
}

/// The middle of the `i`-th frame of the window.
pub open spec fn frame_middle(limit: int, i: int) -> int {
    window_start(limit) + i * FRAME + FRAME as int / 2
}

/// The `k`-th frame of the window is digital silence, and no earlier one is.
pub open spec fn is_first_pause(samples: Seq<i16>, limit: int, k: int) -> bool {
    &&& 0 <= k < window_frames(limit)
    &&& is_digital_silence(window_frame(samples, limit, k))
    &&& forall|j: int|
        0 <= j < k ==> !is_digital_silence(#[trigger] window_frame(samples, limit, j))
}

/// Where the first `limit` samples are cut: in the middle of the quietest frame
/// of the window (the earliest, if several are equally quiet), or at the limit
/// when the window holds no whole frame.
pub open spec fn split_point(samples: Seq<i16>, limit: int) -> int {
    if window_frames(limit) <= 0 {
        limit
    } else {
        frame_middle(limit, choose|i: int| is_quietest(samples, limit, i))
    }
}

/// There is a quietest frame among the first `n` of the window.
proof fn lemma_quietest_of_first(samples: Seq<i16>, limit: int, n: int) -> (i: int)
    requires
        0 < n,
    ensures
        0 <= i < n,
        forall|j: int|
            0 <= j < n ==> loudness(samples, limit, i) <= #[trigger] loudness(samples, limit, j),
        forall|j: int|
            0 <= j < i ==> loudness(samples, limit, i) < #[trigger] loudness(samples, limit, j),
    decreases n,
{
    if n == 1 {
        0
    } else {
        let i = lemma_quietest_of_first(samples, limit, n - 1);
        if loudness(samples, limit, n - 1) < loudness(samples, limit, i) {
            n - 1
        } else {
            i
        }
    }
}

/// The quietest frame is one and only one, so the cut is its middle.
pub proof fn lemma_split_point(samples: Seq<i16>, limit: int, i: int)
    requires
        is_quietest(samples, limit, i),
    ensures
        split_point(samples, limit) == frame_middle(limit, i),
{
    let k = choose|k: int| is_quietest(samples, limit, k);
    assert(is_quietest(samples, limit, k));
    assert(loudness(samples, limit, k) <= loudness(samples, limit, i));
    assert(loudness(samples, limit, i) <= loudness(samples, limit, k));
    if k < i {
        assert(loudness(samples, limit, i) < loudness(samples, limit, k));
    }
    if i < k {
        assert(loudness(samples, limit, k) < loudness(samples, limit, i));
    }
}

/// The `i`-th frame of the window lies between the start of the window and the
/// limit.
proof fn lemma_frame_in_window(limit: int, i: int)
    requires
        0 <= i < window_frames(limit),
    ensures
        0 <= i * FRAME,
        window_start(limit) + i * FRAME + FRAME <= limit,
{
    let span = limit - window_start(limit);
    assert(0 <= i * FRAME && i * FRAME + FRAME <= span) by (nonlinear_arith)
        requires
            0 <= i < span / (FRAME as int),
            FRAME == 1600,
    ;
}

/// A cut takes at least one sample and at most `limit`. Where a whole frame fits
/// the window, it keeps half a frame away from both ends of the window; else it
/// is at the limit.
pub proof fn law_split_in_bounds(samples: Seq<i16>, limit: int)
    requires
        FRAME <= limit,
    ensures
        0 < split_point(samples, limit) <= limit,
        if window_frames(limit) > 0 {
            window_start(limit) + FRAME as int / 2 <= split_point(samples, limit) <= limit
                - FRAME as int / 2
        } else {
            split_point(samples, limit) == limit
        },
{
    let n = window_frames(limit);
    if n > 0 {
        let i = lemma_quietest_of_first(samples, limit, n);
        assert(is_quietest(samples, limit, i));
        lemma_split_point(samples, limit, i);
        lemma_frame_in_window(limit, i);
    }
}

/// Only the audio in the window decides where it is cut: what comes before, and
/// what follows the limit, does not matter.
pub proof fn law_only_window_decides(a: Seq<i16>, b: Seq<i16>, limit: int)
    requires
        FRAME <= limit <= a.len(),
        limit <= b.len(),
        a.subrange(window_start(limit), limit) == b.subrange(window_start(limit), limit),
    ensures
        split_point(a, limit) == split_point(b, limit),
{
    let n = window_frames(limit);
    if n > 0 {
        assert forall|j: int| 0 <= j < n implies loudness(a, limit, j) == #[trigger] loudness(
            b,
            limit,
            j,
        ) by {
            let from = window_start(limit) + j * FRAME;
            lemma_frame_in_window(limit, j);
            let (one, other) = (window_frame(a, limit, j), window_frame(b, limit, j));
            assert forall|k: int| 0 <= k < FRAME implies one[k] == #[trigger] other[k] by {
                assert(one[k] == a[from + k] && other[k] == b[from + k]);
                let at = from + k - window_start(limit);
                assert(a[from + k] == a.subrange(window_start(limit), limit)[at]);
                assert(b[from + k] == b.subrange(window_start(limit), limit)[at]);
            }
            assert(one =~= other);
        }
        let i = lemma_quietest_of_first(a, limit, n);
        assert(is_quietest(a, limit, i));
        assert forall|j: int| 0 <= j < n implies loudness(b, limit, i) <= #[trigger] loudness(
            b,
            limit,
            j,
        ) by {
            assert(loudness(a, limit, i) <= loudness(a, limit, j));
            assert(loudness(a, limit, i) == loudness(b, limit, i));
        }
        assert forall|j: int| 0 <= j < i implies loudness(b, limit, i) < #[trigger] loudness(
            b,
            limit,
            j,
        ) by {
            assert(loudness(a, limit, i) < loudness(a, limit, j));
            assert(loudness(a, limit, i) == loudness(b, limit, i));
        }
        assert(is_quietest(b, limit, i));
        lemma_split_point(a, limit, i);
        lemma_split_point(b, limit, i);
    }
}

/// A pause wins: where some frame of the window is digital silence, the cut falls
/// in the middle of the first such frame.
pub proof fn law_pause_wins(samples: Seq<i16>, limit: int, k: int)
    requires
        is_first_pause(samples, limit, k),
    ensures
        split_point(samples, limit) == frame_middle(limit, k),
{
    assert forall|j: int| 0 <= j < window_frames(limit) implies loudness(samples, limit, k)
        <= #[trigger] loudness(samples, limit, j) by {
        lemma_sum_of_squares(window_frame(samples, limit, k));
        lemma_sum_of_squares(window_frame(samples, limit, j));
    }
    assert forall|j: int| 0 <= j < k implies loudness(samples, limit, k) < #[trigger] loudness(
        samples,
        limit,
        j,
    ) by {
        lemma_sum_of_squares(window_frame(samples, limit, k));
        lemma_sum_of_squares(window_frame(samples, limit, j));
        assert(!is_digital_silence(window_frame(samples, limit, j)));
    }
    assert(is_quietest(samples, limit, k));
    lemma_split_point(samples, limit, k);
}

/// Index of the smallest energy; of the first, if several are equally small.
pub fn quietest(energies: &Vec<u64>) -> (best: usize)
    requires
        energies@.len() > 0,
    ensures
        best < energies@.len(),
        forall|j: int| 0 <= j < energies@.len() ==> energies@[best as int] <= #[trigger] energies@[j],
        forall|j: int| 0 <= j < best ==> energies@[best as int] < #[trigger] energies@[j],
{
    let mut best: usize = 0;
    let mut i: usize = 1;
    while i < energies.len()
        invariant
            best < i <= energies@.len(),
            forall|j: int| 0 <= j < i ==> energies@[best as int] <= #[trigger] energies@[j],
            forall|j: int| 0 <= j < best ==> energies@[best as int] < #[trigger] energies@[j],
        decreases energies@.len() - i,
    {
        if energies[i] < energies[best] {
            best = i;
        }
        i += 1;
    }
    best
}

/// Choose the quietest 100 ms in the last five seconds before `limit`, and cut
/// in its middle. Samples on either side remain contiguous.
pub fn split_at(samples: &[i16], limit: usize) -> (cut: usize)
    requires
        FRAME <= limit <= samples@.len(),
    ensures
        cut == split_point(samples@, limit as int),
        0 < cut <= limit,
        window_frames(limit as int) > 0 ==> exists|i: int| #[trigger]
            is_quietest(samples@, limit as int, i) && cut == frame_middle(limit as int, i),
{
    let frame: usize = SAMPLE_RATE as usize / 10;
    let earliest: usize = limit.saturating_sub(5 * SAMPLE_RATE as usize);
    let start: usize = if earliest > frame {
        earliest
    } else {
        frame
    };
    let frames: usize = (limit - start) / frame;
    if frames == 0 {
        return limit;
    }
    let mut energies: Vec<u64> = Vec::new();
    let mut i: usize = 0;
    while i < frames
        invariant
            frame == FRAME,
            limit <= samples@.len(),
            start == window_start(limit as int),
            frames == window_frames(limit as int),
            start <= limit,
            energies@.len() == i <= frames,
            forall|j: int|
                0 <= j < i ==> #[trigger] energies@[j] == rms_energy_bits(
                    window_frame(samples@, limit as int, j),
                ),
            forall|j: int, other: Seq<i16>|
                0 <= j < i && other.len() == FRAME ==> (#[trigger] rms_energy_bits(other)
                    < #[trigger] energies@[j] <==> sum_of_squares(other) < loudness(
                    samples@,
                    limit as int,
                    j,
                )),
        decreases frames - i,
    {
        proof {
            lemma_frame_in_window(limit as int, i as int);
        }
        let from: usize = start + i * frame;
        let energy: u64 = rms_energy(&samples[from..from + frame]);
        assert(samples@.subrange(from as int, from + frame) == window_frame(
            samples@,
            limit as int,
            i as int,
        ));
        energies.push(energy);
        i += 1;
    }
    let best: usize = quietest(&energies);
    proof {
        assert forall|j: int, k: int| 0 <= j < frames && 0 <= k < frames implies (
        #[trigger] energies@[j] < #[trigger] energies@[k] <==> loudness(samples@, limit as int, j)
            < loudness(samples@, limit as int, k)) by {
            lemma_frame_in_window(limit as int, j);
            assert(window_frame(samples@, limit as int, j).len() == FRAME);
            assert(energies@[j] == rms_energy_bits(window_frame(samples@, limit as int, j)));
        }
        assert forall|j: int| 0 <= j < frames implies loudness(samples@, limit as int, best as int)
            <= #[trigger] loudness(samples@, limit as int, j) by {
            assert(energies@[best as int] <= energies@[j]);
        }
        assert forall|j: int| 0 <= j < best implies loudness(samples@, limit as int, best as int)
            < #[trigger] loudness(samples@, limit as int, j) by {
            assert(energies@[best as int] < energies@[j]);
        }
        assert(is_quietest(samples@, limit as int, best as int));
        lemma_split_point(samples@, limit as int, best as int);
        law_split_in_bounds(samples@, limit as int);
        lemma_frame_in_window(limit as int, best as int);
    }
    start + best * frame + frame / 2
}

/// The `n` frames of 1600 samples that begin at `from` have the `i`-th as the first
/// of the quietest.
pub open spec fn is_first_quietest(samples: Seq<i16>, from: int, n: int, i: int) -> bool {
    &&& 0 <= i < n
    &&& forall|j: int|
        0 <= j < n ==> sum_of_squares(
            samples.subrange(from + 1600 * i, from + 1600 * i + 1600),
        ) <= sum_of_squares(
            #[trigger] samples.subrange(from + 1600 * j, from + 1600 * j + 1600),
        )
    &&& forall|j: int|
        0 <= j < i ==> sum_of_squares(
            samples.subrange(from + 1600 * i, from + 1600 * i + 1600),
        ) < sum_of_squares(#[trigger] samples.subrange(from + 1600 * j, from + 1600 * j + 1600))
}

/// The cut that [`split_point`] makes, in samples.
pub proof fn lemma_cut_in_samples(samples: Seq<i16>, limit: int) -> (i: int)
    requires
        1600 <= limit,
    ensures
        81600 <= limit ==> is_first_quietest(samples, limit - 80000, 50, i) && split_point(
            samples,
            limit,
        ) == limit - 80000 + 1600 * i + 800,
        3200 <= limit < 81600 ==> is_first_quietest(samples, 1600, (limit - 1600) / 1600, i)
            && split_point(samples, limit) == 1600 + 1600 * i + 800,
        limit < 3200 ==> split_point(samples, limit) == limit,
{
    let n = window_frames(limit);
    if 3200 <= limit {
        let i = lemma_quietest_of_first(samples, limit, n);
        assert(is_quietest(samples, limit, i));
        lemma_split_point(samples, limit, i);
        let from = window_start(limit);
        assert forall|j: int| 0 <= j < n implies loudness(samples, limit, i) <= sum_of_squares(
            #[trigger] samples.subrange(from + 1600 * j, from + 1600 * j + 1600),
        ) by {
            assert(loudness(samples, limit, i) <= loudness(samples, limit, j));
        }
        assert forall|j: int| 0 <= j < i implies loudness(samples, limit, i) < sum_of_squares(
            #[trigger] samples.subrange(from + 1600 * j, from + 1600 * j + 1600),
        ) by {
            assert(loudness(samples, limit, i) < loudness(samples, limit, j));
        }
        assert(is_first_quietest(samples, from, n, i));
        i
    } else {
        0
    }
}

/// The cut is the middle of the quietest 100 ms in the last five seconds before the
/// limit: of the fifty frames of 1600 samples that lie between `limit - 80000` and
/// the limit, the `i`-th is the quietest, and every earlier one is louder.
pub proof fn law_cut_in_quietest_frame(samples: &[i16], limit: usize, cut: usize) -> (i: int)
    requires
        call_ensures(split_at, (samples, limit), cut),
        81600 <= limit <= samples@.len(),
    ensures
        call_requires(split_at, (samples, limit)),
        0 <= i < 50,
        cut == limit - 80000 + 1600 * i + 800,
        is_first_quietest(samples@, limit - 80000, 50, i),
        forall|j: int|
            0 <= j < 50 ==> sum_of_squares(samples@.subrange(cut - 800, cut + 800))
                <= sum_of_squares(
                #[trigger] samples@.subrange(
                    limit - 80000 + 1600 * j,
                    limit - 80000 + 1600 * j + 1600,
                ),
            ),
        forall|j: int|
            0 <= j < i ==> sum_of_squares(samples@.subrange(cut - 800, cut + 800))
                < sum_of_squares(
                #[trigger] samples@.subrange(
                    limit - 80000 + 1600 * j,
                    limit - 80000 + 1600 * j + 1600,
                ),
            ),
{
    let i = lemma_cut_in_samples(samples@, limit as int);
    assert(cut - 800 == limit - 80000 + 1600 * i && cut + 800 == limit - 80000 + 1600 * i + 1600);
    i
}

/// Below that, the frames are those behind the first 1600 samples; where none fits,
/// the cut is at the limit.
pub proof fn law_cut_below_five_seconds(samples: &[i16], limit: usize, cut: usize) -> (i: int)
    requires
        call_ensures(split_at, (samples, limit), cut),
        1600 <= limit < 81600,
        limit <= samples@.len(),
    ensures
        call_requires(split_at, (samples, limit)),
        limit < 3200 ==> cut == limit,
        3200 <= limit ==> is_first_quietest(samples@, 1600, (limit - 1600) / 1600, i) && cut == 1600
            + 1600 * i + 800,
{
    lemma_cut_in_samples(samples@, limit as int)
}

/// [`quietest`] finds a smallest energy, and no earlier one is as small.
pub proof fn law_quietest(energies: &Vec<u64>, best: usize)
    requires
        call_ensures(quietest, (energies,), best),
        energies@.len() > 0,
    ensures
        call_requires(quietest, (energies,)),
        best < energies@.len(),
        forall|j: int| 0 <= j < energies@.len() ==> energies@[best as int] <= #[trigger] energies@[j],
        forall|j: int| 0 <= j < best ==> energies@[best as int] < #[trigger] energies@[j],
{
}

} // verus!
