//! From spectral frames to a waveform: how a frame's spectrum is completed,
//! how frames overlap, and what is cut off.

use crate::scalar::F32Bits;
use vstd::prelude::*;

verus! {

/// Number of samples of a frame.
pub const N_FFT: usize = 1280;

/// Number of samples from one frame to the next.
pub const HOP: usize = 320;

/// Number of frequencies that a frame is described by.
pub const N_BINS: usize = 641;

/// Number of samples cut off at each end.
pub const EDGE: usize = 480;

/// Number of whole frames in `len` features: each has a magnitude and an angle
/// for every frequency.
pub open spec fn frames_in(len: nat) -> nat {
    len / (2 * N_BINS as nat)
}

/// Number of samples that `frames` overlapping frames span.
pub open spec fn span_of(frames: nat) -> nat {
    if frames == 0 {
        N_FFT as nat
    } else {
        ((frames - 1) * HOP + N_FFT) as nat
    }
}

/// Counts the whole frames in `len` features.
pub fn frame_count(len: usize) -> (frames: usize)
    ensures
        frames == frames_in(len as nat),
{
    len / (2 * N_BINS)
}

/// Whether `spectrum` is the whole spectrum of frame `at`: what `polar` makes
/// of each magnitude and angle, and behind it the mirror image.
pub open spec fn completes<T, C, P: Fn(T, T) -> C, J: Fn(C) -> C>(
    features: Seq<T>,
    at: int,
    polar: P,
    conjugate: J,
    spectrum: Seq<C>,
) -> bool {
    &&& spectrum.len() == N_FFT
    &&& forall|bin: int|
        0 <= bin < N_BINS ==> polar.ensures(
            (features[at * 1282 + bin], features[at * 1282 + N_BINS + bin]),
            #[trigger] spectrum[bin],
        )
    &&& forall|bin: int|
        N_BINS <= bin < N_FFT ==> conjugate.ensures(
            (spectrum[N_FFT - bin],),
            #[trigger] spectrum[bin],
        )
}

/// The whole spectrum of frame `at`.
pub fn frame_spectrum<T: Copy, C: Copy, P: Fn(T, T) -> C, J: Fn(C) -> C>(
    features: &Vec<T>,
    at: usize,
    polar: P,
    conjugate: J,
) -> (spectrum: Vec<C>)
    requires
        at < frames_in(features@.len()),
        forall|a: T, b: T| #[trigger] polar.requires((a, b)),
        forall|c: C| #[trigger] conjugate.requires((c,)),
    ensures
        completes(features@, at as int, polar, conjugate, spectrum@),
{
    let len: usize = features.len();
    assert((at + 1) * 1282 <= len) by (nonlinear_arith)
        requires
            at < len / 1282,
    ;
    let base: usize = at * 1282;
    let mut spectrum: Vec<C> = Vec::new();
    for bin in 0..N_BINS
        invariant
            features@.len() == len,
            base == at * 1282,
            base + 1282 <= len,
            forall|a: T, b: T| #[trigger] polar.requires((a, b)),
            spectrum@.len() == bin,
            forall|b: int|
                0 <= b < bin ==> polar.ensures(
                    (features@[at * 1282 + b], features@[at * 1282 + N_BINS + b]),
                    #[trigger] spectrum@[b],
                ),
    {
        let value = polar(features[base + bin], features[base + N_BINS + bin]);
        spectrum.push(value);
    }
    for bin in N_BINS..N_FFT
        invariant
            forall|c: C| #[trigger] conjugate.requires((c,)),
            spectrum@.len() == bin,
            N_BINS <= bin <= N_FFT,
            forall|b: int|
                0 <= b < N_BINS ==> polar.ensures(
                    (features@[at * 1282 + b], features@[at * 1282 + N_BINS + b]),
                    #[trigger] spectrum@[b],
                ),
            forall|b: int|
                N_BINS <= b < bin ==> conjugate.ensures(
                    (spectrum@[N_FFT - b],),
                    #[trigger] spectrum@[b],
                ),
    {
        let ghost before = spectrum@;
        let value = conjugate(spectrum[N_FFT - bin]);
        spectrum.push(value);
        assert forall|b: int| N_BINS <= b < bin + 1 implies conjugate.ensures(
            (spectrum@[N_FFT - b],),
            #[trigger] spectrum@[b],
        ) by {
            assert(spectrum@[N_FFT - b] == before[N_FFT - b]);
            if b < bin {
                assert(spectrum@[b] == before[b]);
            }
        }
    }
    spectrum
}

/// Whether `sums` is `track` with `frame` added to it from `offset` on.
pub open spec fn laid_over<T, F: Fn(T, T) -> T>(
    plus: F,
    track: Seq<T>,
    frame: Seq<T>,
    offset: int,
    sums: Seq<T>,
) -> bool {
    &&& sums.len() == track.len()
    &&& forall|i: int|
        0 <= i < track.len() ==> if offset <= i < offset + frame.len() {
            plus.ensures((track[i], frame[i - offset]), #[trigger] sums[i])
        } else {
            sums[i] == track[i]
        }
}

/// The samples of each frame.
pub open spec fn samples_of<T>(frames: Seq<Vec<T>>) -> Seq<Seq<T>> {
    Seq::new(frames.len(), |i: int| frames[i]@)
}

/// Whether `sums` is what the first `count` frames add up to, each begun
/// [`HOP`] samples behind the one before it, on a track of `len` zeros.
pub open spec fn overlaps<T, F: Fn(T, T) -> T>(
    plus: F,
    zero: T,
    frames: Seq<Seq<T>>,
    count: nat,
    len: nat,
    sums: Seq<T>,
) -> bool
    decreases count,
{
    if count == 0 {
        sums == Seq::new(len, |i: int| zero)
    } else {
        exists|track: Seq<T>|
            {
                &&& overlaps(plus, zero, frames, (count - 1) as nat, len, track)
                &&& #[trigger] laid_over(
                    plus,
                    track,
                    frames[count - 1],
                    (count - 1) * HOP,
                    sums,
                )
            }
    }
}

fn lay_over<T: Copy, F: Fn(T, T) -> T>(track: &mut Vec<T>, frame: &Vec<T>, offset: usize, plus: &F)
    requires
        forall|a: T, b: T| #[trigger] plus.requires((a, b)),
        offset + frame@.len() <= old(track)@.len(),
    ensures
        laid_over(*plus, old(track)@, frame@, offset as int, final(track)@),
{
    let ghost before = track@;
    let len: usize = track.len();
    for i in 0..frame.len()
        invariant
            forall|a: T, b: T| #[trigger] plus.requires((a, b)),
            track@.len() == len,
            before.len() == len,
            offset + frame@.len() <= len,
            forall|j: int|
                0 <= j < len ==> if offset <= j < offset + i {
                    plus.ensures((before[j], frame@[j - offset]), #[trigger] track@[j])
                } else {
                    track@[j] == before[j]
                },
    {
        let sum = plus(track[offset + i], frame[i]);
        track.set(offset + i, sum);
    }
}

/// As many zeros as `count` overlapping frames span.
fn silence<T: Copy>(count: usize, zero: T) -> (track: Vec<T>)
    requires
        span_of(count as nat) <= usize::MAX,
    ensures
        track@ == Seq::new(span_of(count as nat), |i: int| zero),
{
    let len: usize = if count == 0 {
        N_FFT
    } else {
        (count - 1) * HOP + N_FFT
    };
    let mut track: Vec<T> = Vec::new();
    for i in 0..len
        invariant
            track@.len() == i,
            forall|j: int| 0 <= j < i ==> #[trigger] track@[j] == zero,
    {
        track.push(zero);
    }
    assert(track@ =~= Seq::new(span_of(count as nat), |i: int| zero));
    track
}

fn overlap_all<T: Copy, F: Fn(T, T) -> T>(frames: &Vec<Vec<T>>, zero: T, plus: &F) -> (sums: Vec<T>)
    requires
        forall|a: T, b: T| #[trigger] plus.requires((a, b)),
        forall|i: int| 0 <= i < frames@.len() ==> (#[trigger] frames@[i])@.len() == N_FFT,
        span_of(frames@.len()) <= usize::MAX,
    ensures
        sums@.len() == span_of(frames@.len()),
        overlaps(
            *plus,
            zero,
            samples_of(frames@),
            frames@.len(),
            span_of(frames@.len()),
            sums@,
        ),
{
    let count: usize = frames.len();
    let mut sums = silence(count, zero);
    let len: usize = sums.len();
    for i in 0..count
        invariant
            forall|a: T, b: T| #[trigger] plus.requires((a, b)),
            forall|k: int| 0 <= k < frames@.len() ==> (#[trigger] frames@[k])@.len() == N_FFT,
            count == frames@.len(),
            count > 0 ==> len == (count - 1) * HOP + N_FFT,
            sums@.len() == len,
            overlaps(*plus, zero, samples_of(frames@), i as nat, len as nat, sums@),
    {
        let ghost track = sums@;
        assert(i * HOP <= (count - 1) * HOP);
        lay_over(&mut sums, &frames[i], i * HOP, plus);
        let ghost next = (i + 1) as nat;
        assert(laid_over(
            *plus,
            track,
            samples_of(frames@)[next - 1],
            (next - 1) * HOP,
            sums@,
        ));
        assert(overlaps(*plus, zero, samples_of(frames@), (next - 1) as nat, len as nat, track));
        assert(overlaps(*plus, zero, samples_of(frames@), next, len as nat, sums@));
    }
    sums
}

/// Adds frames of [`N_FFT`] samples up, each begun [`HOP`] samples behind the
/// one before it.
pub fn overlap_add<T: Copy, F: Fn(T, T) -> T>(frames: &Vec<Vec<T>>, zero: T, plus: F) -> (sums: Vec<
    T,
>)
    requires
        forall|a: T, b: T| #[trigger] plus.requires((a, b)),
        forall|i: int| 0 <= i < frames@.len() ==> (#[trigger] frames@[i])@.len() == N_FFT,
        span_of(frames@.len()) <= usize::MAX,
    ensures
        sums@.len() == span_of(frames@.len()),
        overlaps(
            plus,
            zero,
            samples_of(frames@),
            frames@.len(),
            span_of(frames@.len()),
            sums@,
        ),
{
    overlap_all(frames, zero, &plus)
}

/// Adds `count` times the one frame up, each time begun [`HOP`] samples behind
/// the time before.
fn overlap_repeated<T: Copy, F: Fn(T, T) -> T>(
    frame: &Vec<T>,
    count: usize,
    zero: T,
    plus: &F,
) -> (sums: Vec<T>)
    requires
        forall|a: T, b: T| #[trigger] plus.requires((a, b)),
        frame@.len() == N_FFT,
        span_of(count as nat) <= usize::MAX,
    ensures
        sums@.len() == span_of(count as nat),
        overlaps(
            *plus,
            zero,
            Seq::new(count as nat, |i: int| frame@),
            count as nat,
            span_of(count as nat),
            sums@,
        ),
{
    let ghost frames = Seq::new(count as nat, |i: int| frame@);
    let mut sums = silence(count, zero);
    let len: usize = sums.len();
    for i in 0..count
        invariant
            forall|a: T, b: T| #[trigger] plus.requires((a, b)),
            frame@.len() == N_FFT,
            frames == Seq::new(count as nat, |i: int| frame@),
            count > 0 ==> len == (count - 1) * HOP + N_FFT,
            sums@.len() == len,
            overlaps(*plus, zero, frames, i as nat, len as nat, sums@),
    {
        let ghost track = sums@;
        assert(i * HOP <= (count - 1) * HOP);
        lay_over(&mut sums, frame, i * HOP, plus);
        let ghost next = (i + 1) as nat;
        assert(laid_over(*plus, track, frames[next - 1], (next - 1) * HOP, sums@));
        assert(overlaps(*plus, zero, frames, (next - 1) as nat, len as nat, track));
        assert(overlaps(*plus, zero, frames, next, len as nat, sums@));
    }
    sums
}

/// A waveform without its edges; one that is nothing but edges is left whole.
pub open spec fn without_edges<T>(waveform: Seq<T>) -> Seq<T> {
    if waveform.len() > 2 * EDGE {
        waveform.subrange(EDGE as int, waveform.len() - EDGE)
    } else {
        waveform
    }
}

/// Cuts the edges off a waveform.
fn trim_edges<T: Copy>(waveform: &Vec<T>) -> (trimmed: Vec<T>)
    ensures
        trimmed@ == without_edges(waveform@),
{
    let len: usize = waveform.len();
    let (from, to): (usize, usize) = if len > 2 * EDGE {
        (EDGE, len - EDGE)
    } else {
        (0, len)
    };
    let mut trimmed: Vec<T> = Vec::new();
    for i in from..to
        invariant
            to <= waveform@.len(),
            from <= i <= to,
            trimmed@ == waveform@.subrange(from as int, i as int),
    {
        trimmed.push(waveform[i]);
        assert(trimmed@ =~= waveform@.subrange(from as int, i + 1));
    }
    assert(waveform@.subrange(0, len as int) =~= waveform@);
    trimmed
}

/// Bit pattern of the window weight above which a sample is evened out,
/// a hundred-millionth.
pub const NORM_FLOOR_BITS: u32 = 0x322b_cc77;

/// Whether `even` is `sums` with every sample divided by its window weight,
/// unless that weight is next to nothing.
pub open spec fn evened<D: Fn(F32Bits, F32Bits) -> F32Bits>(
    divide: D,
    sums: Seq<F32Bits>,
    norms: Seq<F32Bits>,
    even: Seq<F32Bits>,
) -> bool {
    &&& even.len() == sums.len()
    &&& forall|i: int|
        0 <= i < sums.len() ==> if (F32Bits { bits: NORM_FLOOR_BITS }).less(norms[i]) {
            divide.ensures((sums[i], norms[i]), #[trigger] even[i])
        } else {
            even[i] == sums[i]
        }
}

/// Whether `peak` is the largest absolute value of `samples`; what is not a
/// number does not count, and without any number it is zero.
pub open spec fn is_peak(samples: Seq<F32Bits>, peak: F32Bits) -> bool {
    &&& !peak.is_negative()
    &&& !peak.is_nan()
    &&& forall|i: int|
        0 <= i < samples.len() && !(#[trigger] samples[i]).is_nan() ==> samples[i].magnitude()
            <= peak.bits
    &&& peak.bits == 0 || exists|i: int|
        0 <= i < samples.len() && (#[trigger] samples[i]).magnitude() == peak.bits
}

/// Whether `loud` is `samples` brought to a common loudness by their peak.
pub open spec fn leveled<S: Fn(F32Bits, F32Bits) -> F32Bits>(
    scale: S,
    samples: Seq<F32Bits>,
    peak: F32Bits,
    loud: Seq<F32Bits>,
) -> bool {
    if peak.positive() {
        &&& loud.len() == samples.len()
        &&& forall|i: int|
            0 <= i < samples.len() ==> scale.ensures((samples[i], peak), #[trigger] loud[i])
    } else {
        loud == samples
    }
}

fn even_out<D: Fn(F32Bits, F32Bits) -> F32Bits>(
    sums: &Vec<F32Bits>,
    norms: &Vec<F32Bits>,
    divide: &D,
) -> (even: Vec<F32Bits>)
    requires
        forall|a: F32Bits, b: F32Bits| #[trigger] divide.requires((a, b)),
        norms@.len() == sums@.len(),
    ensures
        evened(*divide, sums@, norms@, even@),
{
    let floor = F32Bits { bits: NORM_FLOOR_BITS };
    let mut even: Vec<F32Bits> = Vec::new();
    for i in 0..sums.len()
        invariant
            forall|a: F32Bits, b: F32Bits| #[trigger] divide.requires((a, b)),
            norms@.len() == sums@.len(),
            floor == (F32Bits { bits: NORM_FLOOR_BITS }),
            even@.len() == i,
            forall|j: int|
                0 <= j < i ==> if floor.less(norms@[j]) {
                    divide.ensures((sums@[j], norms@[j]), #[trigger] even@[j])
                } else {
                    even@[j] == sums@[j]
                },
    {
        if floor.is_less(&norms[i]) {
            let value = divide(sums[i], norms[i]);
            even.push(value);
        } else {
            even.push(sums[i]);
        }
    }
    even
}

/// The largest absolute value of `samples`.
pub fn peak_of(samples: &Vec<F32Bits>) -> (peak: F32Bits)
    ensures
        is_peak(samples@, peak),
{
    let mut peak: u32 = 0;
    for i in 0..samples.len()
        invariant
            peak <= 0x7f80_0000,
            forall|j: int|
                0 <= j < i && !(#[trigger] samples@[j]).is_nan() ==> samples@[j].magnitude()
                    <= peak,
            peak == 0 || exists|j: int|
                0 <= j < i && (#[trigger] samples@[j]).magnitude() == peak,
    {
        let bits: u32 = samples[i].bits;
        let magnitude: u32 = if bits >= 0x8000_0000 {
            bits - 0x8000_0000
        } else {
            bits
        };
        if magnitude <= 0x7f80_0000 && magnitude > peak {
            peak = magnitude;
            assert(samples@[i as int].magnitude() == peak);
        }
    }
    F32Bits { bits: peak }
}

fn level<S: Fn(F32Bits, F32Bits) -> F32Bits>(samples: Vec<F32Bits>, peak: F32Bits, scale: &S) -> (loud:
    Vec<F32Bits>)
    requires
        forall|a: F32Bits, b: F32Bits| #[trigger] scale.requires((a, b)),
    ensures
        leveled(*scale, samples@, peak, loud@),
{
    if !peak.is_positive() {
        return samples;
    }
    let mut loud: Vec<F32Bits> = Vec::new();
    for i in 0..samples.len()
        invariant
            forall|a: F32Bits, b: F32Bits| #[trigger] scale.requires((a, b)),
            loud@.len() == i,
            forall|j: int| 0 <= j < i ==> scale.ensures((samples@[j], peak), #[trigger] loud@[j]),
    {
        let value = scale(samples[i], peak);
        loud.push(value);
    }
    loud
}

/// Whether `waveform` is made of overlapped frames: evened out, cut at its
/// edges, and brought to a common loudness by the peak of the uncut samples.
pub open spec fn finishes<
    D: Fn(F32Bits, F32Bits) -> F32Bits,
    S: Fn(F32Bits, F32Bits) -> F32Bits,
>(
    divide: D,
    scale: S,
    sums: Seq<F32Bits>,
    norms: Seq<F32Bits>,
    waveform: Seq<F32Bits>,
) -> bool {
    exists|even: Seq<F32Bits>, peak: F32Bits|
        {
            &&& #[trigger] evened(divide, sums, norms, even)
            &&& #[trigger] is_peak(even, peak)
            &&& leveled(scale, without_edges(even), peak, waveform)
        }
}

/// Makes a waveform of overlapped frames. The arithmetic is the caller's:
/// `divide` takes a sample by its window weight, `scale` by the peak.
pub fn finish_waveform<D: Fn(F32Bits, F32Bits) -> F32Bits, S: Fn(F32Bits, F32Bits) -> F32Bits>(
    sums: &Vec<F32Bits>,
    norms: &Vec<F32Bits>,
    divide: D,
    scale: S,
) -> (waveform: Vec<F32Bits>)
    requires
        forall|a: F32Bits, b: F32Bits| #[trigger] divide.requires((a, b)),
        forall|a: F32Bits, b: F32Bits| #[trigger] scale.requires((a, b)),
        norms@.len() == sums@.len(),
    ensures
        finishes(divide, scale, sums@, norms@, waveform@),
{
    let even = even_out(sums, norms, &divide);
    let peak = peak_of(&even);
    let trimmed = trim_edges(&even);
    let waveform = level(trimmed, peak, &scale);
    assert(evened(divide, sums@, norms@, even@) && is_peak(even@, peak));
    waveform
}

/// Whether `frame` is what `inverse` makes of the whole spectrum of the frame
/// at `at`.
pub open spec fn sounds<T, C, P: Fn(T, T) -> C, J: Fn(C) -> C, R: Fn(Vec<C>) -> Vec<F32Bits>>(
    features: Seq<T>,
    at: int,
    polar: P,
    conjugate: J,
    inverse: R,
    frame: Vec<F32Bits>,
) -> bool {
    exists|spectrum: Vec<C>|
        {
            &&& completes(features, at, polar, conjugate, spectrum@)
            &&& #[trigger] inverse.ensures((spectrum,), frame)
        }
}

/// Whether `frames` are the sounds of all whole frames in `features`.
pub open spec fn are_sounds<T, C, P: Fn(T, T) -> C, J: Fn(C) -> C, R: Fn(Vec<C>) -> Vec<F32Bits>>(
    features: Seq<T>,
    polar: P,
    conjugate: J,
    inverse: R,
    frames: Seq<Vec<F32Bits>>,
) -> bool {
    &&& frames.len() == frames_in(features.len())
    &&& forall|at: int|
        0 <= at < frames.len() ==> sounds(
            features,
            at,
            polar,
            conjugate,
            inverse,
            #[trigger] frames[at],
        )
}

/// Whether `waveform` is made of `frames`, each under a window whose squares
/// are `weights`: the frames and the weights are overlapped alike, and the one
/// track is finished by the other.
pub open spec fn synthesizes<
    A: Fn(F32Bits, F32Bits) -> F32Bits,
    D: Fn(F32Bits, F32Bits) -> F32Bits,
    S: Fn(F32Bits, F32Bits) -> F32Bits,
>(
    plus: A,
    divide: D,
    scale: S,
    frames: Seq<Seq<F32Bits>>,
    weights: Seq<F32Bits>,
    waveform: Seq<F32Bits>,
) -> bool {
    let zero = F32Bits { bits: 0 };
    let count = frames.len();
    exists|sums: Seq<F32Bits>, norms: Seq<F32Bits>|
        {
            &&& overlaps(plus, zero, frames, count, span_of(count), sums)
            &&& overlaps(plus, zero, Seq::new(count, |i: int| weights), count, span_of(count), norms)
            &&& #[trigger] finishes(divide, scale, sums, norms, waveform)
        }
}

/// Makes a waveform of spectral features. The arithmetic is the caller's:
/// `polar` makes a value of a magnitude and an angle, `conjugate` mirrors it,
/// `inverse` turns the whole spectrum of a frame into its windowed samples,
/// `plus` adds, `divide` takes a sample by its window weight and `scale` by the
/// peak. The squares of the window are `weights`.
pub fn synthesize<
    T: Copy,
    C: Copy,
    P: Fn(T, T) -> C,
    J: Fn(C) -> C,
    R: Fn(Vec<C>) -> Vec<F32Bits>,
    A: Fn(F32Bits, F32Bits) -> F32Bits,
    D: Fn(F32Bits, F32Bits) -> F32Bits,
    S: Fn(F32Bits, F32Bits) -> F32Bits,
>(
    features: &Vec<T>,
    weights: &Vec<F32Bits>,
    polar: P,
    conjugate: J,
    inverse: R,
    plus: A,
    divide: D,
    scale: S,
) -> (waveform: Vec<F32Bits>)
    requires
        weights@.len() == N_FFT,
        forall|a: T, b: T| #[trigger] polar.requires((a, b)),
        forall|c: C| #[trigger] conjugate.requires((c,)),
        forall|spectrum: Vec<C>|
            spectrum@.len() == N_FFT ==> #[trigger] inverse.requires((spectrum,)),
        forall|spectrum: Vec<C>, frame: Vec<F32Bits>| #[trigger]
            inverse.ensures((spectrum,), frame) ==> frame@.len() == N_FFT,
        forall|a: F32Bits, b: F32Bits| #[trigger] plus.requires((a, b)),
        forall|a: F32Bits, b: F32Bits| #[trigger] divide.requires((a, b)),
        forall|a: F32Bits, b: F32Bits| #[trigger] scale.requires((a, b)),
    ensures
        exists|frames: Seq<Vec<F32Bits>>|
            {
                &&& #[trigger] are_sounds(features@, polar, conjugate, inverse, frames)
                &&& synthesizes(plus, divide, scale, samples_of(frames), weights@, waveform@)
            },
        frames_in(features@.len()) > 0 ==> waveform@.len() == frames_in(features@.len()) * HOP,
{
    let count: usize = frame_count(features.len());
    let zero = F32Bits { bits: 0 };
    let mut frames: Vec<Vec<F32Bits>> = Vec::new();
    for at in 0..count
        invariant
            count == frames_in(features@.len()),
            forall|a: T, b: T| #[trigger] polar.requires((a, b)),
            forall|c: C| #[trigger] conjugate.requires((c,)),
            forall|spectrum: Vec<C>|
                spectrum@.len() == N_FFT ==> #[trigger] inverse.requires((spectrum,)),
            forall|spectrum: Vec<C>, frame: Vec<F32Bits>| #[trigger]
                inverse.ensures((spectrum,), frame) ==> frame@.len() == N_FFT,
            frames@.len() == at,
            forall|i: int|
                0 <= i < at ==> sounds(
                    features@,
                    i,
                    polar,
                    conjugate,
                    inverse,
                    #[trigger] frames@[i],
                ),
            forall|i: int| 0 <= i < at ==> (#[trigger] frames@[i])@.len() == N_FFT,
    {
        let spectrum = frame_spectrum(features, at, &polar, &conjugate);
        let ghost whole = spectrum;
        let frame = inverse(spectrum);
        assert(completes(features@, at as int, polar, conjugate, whole@));
        assert(inverse.ensures((whole,), frame));
        frames.push(frame);
    }
    let len: usize = features.len();
    assert(count * 1282 <= len) by (nonlinear_arith)
        requires
            count == len / 1282,
    ;
    let sums = overlap_all(&frames, zero, &plus);
    let norms = overlap_repeated(weights, count, zero, &plus);
    let waveform = finish_waveform(&sums, &norms, divide, scale);
    assert(are_sounds(features@, polar, conjugate, inverse, frames@));
    assert(finishes(divide, scale, sums@, norms@, waveform@));
    waveform
}

/// Every frame accounts for [`HOP`] samples of the finished waveform.
pub proof fn frames_fill_the_waveform<
    D: Fn(F32Bits, F32Bits) -> F32Bits,
    S: Fn(F32Bits, F32Bits) -> F32Bits,
>(
    divide: D,
    scale: S,
    sums: Seq<F32Bits>,
    norms: Seq<F32Bits>,
    waveform: Seq<F32Bits>,
    frames: nat,
)
    requires
        frames > 0,
        sums.len() == span_of(frames),
        finishes(divide, scale, sums, norms, waveform),
    ensures
        waveform.len() == frames * HOP,
{
}

/// The spectrum of a frame is symmetric: a frequency and its mirror image are
/// a value and its conjugate.
pub proof fn spectrum_is_mirrored<T, C, P: Fn(T, T) -> C, J: Fn(C) -> C>(
    features: Seq<T>,
    at: int,
    polar: P,
    conjugate: J,
    spectrum: Seq<C>,
    bin: int,
)
    requires
        completes(features, at, polar, conjugate, spectrum),
        0 < bin < N_BINS - 1,
    ensures
        conjugate.ensures((spectrum[bin],), spectrum[N_FFT - bin]),
{
}

/// Where the first `count` frames lie on the track: what they add up to at
/// place `i` comes of the places of just those frames that reach over `i`, the
/// first frame first.
proof fn overlap_at_a_place<T, F: Fn(T, T) -> T>(
    plus: F,
    zero: T,
    frames: Seq<Seq<T>>,
    count: nat,
    len: nat,
    sums: Seq<T>,
    i: int,
) -> (partial: Seq<T>)
    requires
        overlaps(plus, zero, frames, count, len, sums),
        count <= frames.len(),
        forall|t: int| 0 <= t < frames.len() ==> (#[trigger] frames[t]).len() == 1280,
        0 <= i < len,
    ensures
        sums.len() == len,
        partial.len() == count + 1,
        partial[0] == zero,
        partial[count as int] == sums[i],
        forall|t: int|
            #![trigger frames[t]]
            0 <= t < count ==> if 320 * t <= i < 320 * t + 1280 {
                plus.ensures((partial[t], frames[t][i - 320 * t]), partial[t + 1])
            } else {
                partial[t + 1] == partial[t]
            },
    decreases count,
{
    if count == 0 {
        seq![zero]
    } else {
        let track = choose|track: Seq<T>|
            {
                &&& overlaps(plus, zero, frames, (count - 1) as nat, len, track)
                &&& #[trigger] laid_over(plus, track, frames[count - 1], (count - 1) * HOP, sums)
            };
        let before = overlap_at_a_place(
            plus,
            zero,
            frames,
            (count - 1) as nat,
            len,
            track,
            i,
        );
        let partial = before.push(sums[i]);
        assert(laid_over(plus, track, frames[count - 1], (count - 1) * HOP, sums));
        assert forall|t: int|
            #![trigger frames[t]]
            0 <= t < count implies if 320 * t <= i < 320 * t + 1280 {
            plus.ensures((partial[t], frames[t][i - 320 * t]), partial[t + 1])
        } else {
            partial[t + 1] == partial[t]
        } by {
            if t < count - 1 {
                assert(partial[t] == before[t] && partial[t + 1] == before[t + 1]);
            } else {
                assert(partial[t] == track[i] && partial[t + 1] == sums[i]);
            }
        }
        partial
    }
}

/// Frames sound in their order, each 320 samples behind the one before it:
/// frame `t` is heard from place 320 `t` of the track up to place 320 `t` +
/// 1280, and nowhere else. What stands at a place is the sum, in the order of
/// the frames, of just what the frames have there, begun at zero; the track
/// ends with the last frame.
pub proof fn frames_sound_in_their_place<T, F: Fn(T, T) -> T>(
    plus: F,
    zero: T,
    frames: Seq<Seq<T>>,
    sums: Seq<T>,
)
    requires
        overlaps(plus, zero, frames, frames.len(), span_of(frames.len()), sums),
        forall|t: int| 0 <= t < frames.len() ==> (#[trigger] frames[t]).len() == 1280,
    ensures
        frames.len() > 0 ==> sums.len() == 320 * (frames.len() - 1) + 1280,
        frames.len() == 0 ==> sums.len() == 1280,
        forall|i: int|
            #![trigger sums[i]]
            0 <= i < sums.len() ==> exists|partial: Seq<T>|
                {
                    &&& #[trigger] partial.len() == frames.len() + 1
                    &&& partial[0] == zero
                    &&& partial[frames.len() as int] == sums[i]
                    &&& forall|t: int|
                        #![trigger frames[t]]
                        0 <= t < frames.len() ==> if 320 * t <= i < 320 * t + 1280 {
                            plus.ensures((partial[t], frames[t][i - 320 * t]), partial[t + 1])
                        } else {
                            partial[t + 1] == partial[t]
                        }
                },
{
    let len = span_of(frames.len());
    let _ = overlap_at_a_place(plus, zero, frames, frames.len(), len, sums, 0);
    assert forall|i: int|
        #![trigger sums[i]]
        0 <= i < sums.len() implies exists|partial: Seq<T>|
        {
            &&& #[trigger] partial.len() == frames.len() + 1
            &&& partial[0] == zero
            &&& partial[frames.len() as int] == sums[i]
            &&& forall|t: int|
                #![trigger frames[t]]
                0 <= t < frames.len() ==> if 320 * t <= i < 320 * t + 1280 {
                    plus.ensures((partial[t], frames[t][i - 320 * t]), partial[t + 1])
                } else {
                    partial[t + 1] == partial[t]
                }
        } by {
        let partial = overlap_at_a_place(plus, zero, frames, frames.len(), len, sums, i);
        assert(partial.len() == frames.len() + 1);
    }
}

/// The spectrum of frame `at` is read from the 1282 features of that frame
/// alone: the value at each of its 641 frequencies comes of the feature there
/// and of the one 641 places on, and every frequency strictly between the
/// lowest and the highest is mirrored at the other end.
pub proof fn spectrum_is_read_from_its_features<T, C, P: Fn(T, T) -> C, J: Fn(C) -> C>(
    features: Seq<T>,
    at: int,
    polar: P,
    conjugate: J,
    spectrum: Seq<C>,
)
    requires
        completes(features, at, polar, conjugate, spectrum),
    ensures
        spectrum.len() == 1280,
        forall|bin: int|
            0 <= bin <= 640 ==> polar.ensures(
                (features[1282 * at + bin], features[1282 * at + 641 + bin]),
                #[trigger] spectrum[bin],
            ),
        forall|bin: int|
            0 < bin < 640 ==> conjugate.ensures((#[trigger] spectrum[bin],), spectrum[1280 - bin]),
{
    assert forall|bin: int| 0 < bin < 640 implies conjugate.ensures(
        (#[trigger] spectrum[bin],),
        spectrum[1280 - bin],
    ) by {
        let mirrored = 1280 - bin;
        assert(conjugate.ensures((spectrum[1280 - mirrored],), spectrum[mirrored]));
    }
}

/// How a waveform is finished: a sample whose window weight is above a
/// hundred-millionth is divided by it, and any other is left alone; 480 samples
/// are cut off at each end of what is longer than both; and what is left is
/// scaled by the largest absolute value of all samples, the cut ones among
/// them, where that is above zero.
pub proof fn waveform_is_evened_cut_and_leveled<
    D: Fn(F32Bits, F32Bits) -> F32Bits,
    S: Fn(F32Bits, F32Bits) -> F32Bits,
>(
    divide: D,
    scale: S,
    sums: Seq<F32Bits>,
    norms: Seq<F32Bits>,
    waveform: Seq<F32Bits>,
)
    requires
        finishes(divide, scale, sums, norms, waveform),
    ensures
        sums.len() > 960 ==> waveform.len() == sums.len() - 960,
        sums.len() <= 960 ==> waveform.len() == sums.len(),
        exists|even: Seq<F32Bits>, peak: F32Bits|
            #![trigger even.len(), peak.is_nan()]
            {
                &&& even.len() == sums.len()
                &&& forall|i: int|
                    0 <= i < sums.len() ==> if 0x322b_cc77 < norms[i].bits <= 0x7f80_0000 {
                        divide.ensures((sums[i], norms[i]), #[trigger] even[i])
                    } else {
                        even[i] == sums[i]
                    }
                &&& !peak.is_nan()
                &&& peak.bits <= 0x7f80_0000
                &&& forall|i: int|
                    0 <= i < even.len() && (#[trigger] even[i]).bits <= 0x7f80_0000 ==> even[i].bits
                        <= peak.bits
                &&& forall|i: int|
                    0 <= i < even.len() && 0x8000_0000 <= (#[trigger] even[i]).bits <= 0xff80_0000
                        ==> even[i].bits - 0x8000_0000 <= peak.bits
                &&& peak.bits == 0 || exists|i: int|
                    0 <= i < even.len() && ((#[trigger] even[i]).bits == peak.bits || even[i].bits
                        == peak.bits + 0x8000_0000)
                &&& forall|k: int|
                    0 <= k < waveform.len() ==> {
                        let place = if sums.len() > 960 {
                            k + 480
                        } else {
                            k
                        };
                        if peak.bits > 0 {
                            scale.ensures((even[place], peak), #[trigger] waveform[k])
                        } else {
                            waveform[k] == even[place]
                        }
                    }
            },
{
    let (even, peak) = choose|even: Seq<F32Bits>, peak: F32Bits|
        {
            &&& #[trigger] evened(divide, sums, norms, even)
            &&& #[trigger] is_peak(even, peak)
            &&& leveled(scale, without_edges(even), peak, waveform)
        };
    let trimmed = without_edges(even);
    if peak.bits != 0 {
        let i = choose|i: int|
            0 <= i < even.len() && (#[trigger] even[i]).magnitude() == peak.bits;
        assert(even[i].bits == peak.bits || even[i].bits == peak.bits + 0x8000_0000);
    }
    assert forall|i: int|
        0 <= i < even.len() && (#[trigger] even[i]).bits <= 0x7f80_0000 implies even[i].bits
        <= peak.bits by {
        assert(!even[i].is_nan());
    }
    assert forall|i: int|
        0 <= i < even.len() && 0x8000_0000 <= (#[trigger] even[i]).bits
            <= 0xff80_0000 implies even[i].bits - 0x8000_0000 <= peak.bits by {
        assert(!even[i].is_nan());
    }
    assert(even.len() == sums.len() && !peak.is_nan());
}

/// Every frame sounds like its own features: as many frames as the features
/// fill, 1282 each, are made, and frame `t` is what `inverse` makes of the
/// spectrum that features 1282 `t` up to 1282 `t` + 1282 describe. The samples
/// that are overlapped for it are its own.
pub proof fn frame_sounds_like_its_features<
    T,
    C,
    P: Fn(T, T) -> C,
    J: Fn(C) -> C,
    R: Fn(Vec<C>) -> Vec<F32Bits>,
>(
    features: Seq<T>,
    polar: P,
    conjugate: J,
    inverse: R,
    frames: Seq<Vec<F32Bits>>,
    t: int,
)
    requires
        are_sounds(features, polar, conjugate, inverse, frames),
        0 <= t < frames.len(),
    ensures
        1282 * frames.len() <= features.len() < 1282 * (frames.len() + 1),
        samples_of(frames).len() == frames.len(),
        samples_of(frames)[t] == frames[t]@,
        exists|spectrum: Vec<C>|
            {
                &&& #[trigger] inverse.ensures((spectrum,), frames[t])
                &&& spectrum@.len() == 1280
                &&& forall|bin: int|
                    0 <= bin <= 640 ==> polar.ensures(
                        (features[1282 * t + bin], features[1282 * t + 641 + bin]),
                        #[trigger] spectrum@[bin],
                    )
                &&& forall|bin: int|
                    0 < bin < 640 ==> conjugate.ensures(
                        (#[trigger] spectrum@[bin],),
                        spectrum@[1280 - bin],
                    )
            },
{
    let count = frames.len();
    let len = features.len();
    assert(1282 * count <= len < 1282 * (count + 1)) by (nonlinear_arith)
        requires
            count == len / 1282,
    ;
    assert(sounds(features, t, polar, conjugate, inverse, frames[t]));
    let spectrum = choose|spectrum: Vec<C>|
        {
            &&& completes(features, t, polar, conjugate, spectrum@)
            &&& #[trigger] inverse.ensures((spectrum,), frames[t])
        };
    spectrum_is_read_from_its_features(features, t, polar, conjugate, spectrum@);
}

/// A waveform is what its frames add up to, evened out by what their windows
/// add up to: the squares of the window are overlapped once for each frame and
/// in the very same places. Every sample is left of as many as the frames span,
/// but for 480 at each end.
pub proof fn waveform_is_evened_by_its_windows<
    A: Fn(F32Bits, F32Bits) -> F32Bits,
    D: Fn(F32Bits, F32Bits) -> F32Bits,
    S: Fn(F32Bits, F32Bits) -> F32Bits,
>(
    plus: A,
    divide: D,
    scale: S,
    frames: Seq<Seq<F32Bits>>,
    weights: Seq<F32Bits>,
    waveform: Seq<F32Bits>,
)
    requires
        synthesizes(plus, divide, scale, frames, weights, waveform),
        forall|t: int| 0 <= t < frames.len() ==> (#[trigger] frames[t]).len() == 1280,
        weights.len() == 1280,
    ensures
        frames.len() > 0 ==> waveform.len() == 320 * frames.len(),
        exists|sums: Seq<F32Bits>, norms: Seq<F32Bits>, windows: Seq<Seq<F32Bits>>|
            #![trigger finishes(divide, scale, sums, norms, waveform), windows.len()]
            {
                &&& finishes(divide, scale, sums, norms, waveform)
                &&& sums.len() == norms.len()
                &&& windows.len() == frames.len()
                &&& forall|t: int| 0 <= t < windows.len() ==> #[trigger] windows[t] == weights
                &&& overlaps(
                    plus,
                    F32Bits { bits: 0 },
                    frames,
                    frames.len(),
                    span_of(frames.len()),
                    sums,
                )
                &&& overlaps(
                    plus,
                    F32Bits { bits: 0 },
                    windows,
                    frames.len(),
                    span_of(frames.len()),
                    norms,
                )
            },
{
    let zero = F32Bits { bits: 0 };
    let count = frames.len();
    let windows = Seq::new(count, |i: int| weights);
    let (sums, norms) = choose|sums: Seq<F32Bits>, norms: Seq<F32Bits>|
        {
            &&& overlaps(plus, zero, frames, count, span_of(count), sums)
            &&& overlaps(plus, zero, windows, count, span_of(count), norms)
            &&& #[trigger] finishes(divide, scale, sums, norms, waveform)
        };
    frames_sound_in_their_place(plus, zero, frames, sums);
    frames_sound_in_their_place(plus, zero, windows, norms);
    waveform_is_evened_cut_and_leveled(divide, scale, sums, norms, waveform);
    assert(finishes(divide, scale, sums, norms, waveform) && windows.len() == count);
}

} // verus!
