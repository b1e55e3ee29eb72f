//! The audio front end: how samples are framed, which frequencies a mel band
//! covers, and how bands are laid out. The arithmetic on samples is handed in.

use crate::config::MelConfig;
use crate::error::NodeError;
use crate::scalar::F32Bits;
use vstd::prelude::*;

verus! {

/// Whether `checked` tells that audio is at the sample rate that the front end
/// expects.
pub open spec fn checks_rate(
    config: MelConfig,
    sample_rate: u32,
    checked: Result<(), NodeError>,
) -> bool {
    &&& checked is Ok <==> sample_rate == config.sample_rate
    &&& checked matches Err(error) ==> error == (NodeError::FrontendRate {
        expected: config.sample_rate,
        got: sample_rate,
    })
}

/// Refuses audio at another sample rate than the front end expects.
pub fn check_frontend_rate(config: &MelConfig, sample_rate: u32) -> (checked: Result<(), NodeError>)
    ensures
        checks_rate(*config, sample_rate, checked),
        checked is Ok <==> sample_rate == config.sample_rate,
        checked matches Err(error) ==> error == (NodeError::FrontendRate {
            expected: config.sample_rate,
            got: sample_rate,
        }),
{
    if sample_rate != config.sample_rate {
        Err(NodeError::FrontendRate { expected: config.sample_rate, got: sample_rate })
    } else {
        Ok(())
    }
}

/// Number of frequencies of a frame.
pub open spec fn bins_of(config: MelConfig) -> nat {
    (config.n_fft / 2 + 1) as nat
}

/// Number of zeros put before the samples, and behind them.
pub open spec fn pad_of(config: MelConfig) -> nat {
    (config.n_fft / 2) as nat
}

/// Number of samples with the zeros.
pub open spec fn padded_len(samples: nat, config: MelConfig) -> nat {
    samples + 2 * pad_of(config)
}

/// Number of frames that `samples` samples are cut into.
pub open spec fn frames_of(samples: nat, config: MelConfig) -> nat {
    let beyond = padded_len(samples, config) - config.n_fft;
    if beyond <= 0 {
        1
    } else {
        (1 + beyond / config.hop_length as int) as nat
    }
}

/// Number of zeros before the window in a frame.
pub open spec fn window_offset(config: MelConfig) -> int {
    (config.n_fft - config.win_length) / 2
}

/// Whether `samples` samples can be cut into frames at all, and their features
/// be counted.
pub open spec fn framable(samples: nat, config: MelConfig) -> bool {
    &&& config.hop_length > 0
    &&& config.win_length <= config.n_fft
    &&& padded_len(samples, config) <= usize::MAX
    &&& window_offset(config) + config.win_length <= padded_len(samples, config)
    &&& frames_of(samples, config) * config.n_mels <= usize::MAX
    &&& frames_of(samples, config) <= usize::MAX
}

/// How samples are cut into frames.
#[derive(Debug, Clone, Copy, PartialEq, Eq, Structural)]
pub struct MelLayout {
    pub pad: usize,
    pub frame_count: usize,
    pub pad_left: usize,
}

/// Whether `layout` says how `samples` samples are cut into frames.
pub open spec fn is_layout(samples: usize, config: MelConfig, layout: Option<MelLayout>) -> bool {
    &&& layout is Some <==> framable(samples as nat, config)
    &&& layout matches Some(l) ==> {
        &&& l.pad == pad_of(config)
        &&& l.frame_count == frames_of(samples as nat, config)
        &&& l.pad_left == window_offset(config)
    }
}

/// How `samples` samples are cut into frames; `None` where they cannot be.
pub fn mel_layout(samples: usize, config: &MelConfig) -> (layout: Option<MelLayout>)
    ensures
        is_layout(samples, *config, layout),
        layout is Some <==> framable(samples as nat, *config),
        layout matches Some(l) ==> {
            &&& l.pad == pad_of(*config)
            &&& l.frame_count == frames_of(samples as nat, *config)
            &&& l.pad_left == window_offset(*config)
        },
{
    if config.hop_length == 0 || config.win_length > config.n_fft {
        return None;
    }
    let pad: usize = config.n_fft / 2;
    if samples > usize::MAX - 2 * pad {
        return None;
    }
    let padded: usize = samples + 2 * pad;
    let pad_left: usize = (config.n_fft - config.win_length) / 2;
    if pad_left + config.win_length > padded {
        return None;
    }
    let beyond: usize = if padded > config.n_fft {
        padded - config.n_fft
    } else {
        0
    };
    let hops: usize = beyond / config.hop_length;
    proof {
        vstd::arithmetic::div_mod::lemma_div_is_ordered_by_denominator(
            beyond as int,
            1,
            config.hop_length as int,
        );
        vstd::arithmetic::div_mod::lemma_div_basics(beyond as int);
        vstd::arithmetic::div_mod::lemma_div_basics(config.hop_length as int);
    }
    if hops == usize::MAX {
        return None;
    }
    let frame_count: usize = 1 + hops;
    match frame_count.checked_mul(config.n_mels) {
        Some(_) => Some(MelLayout { pad, frame_count, pad_left }),
        None => None,
    }
}

/// Every frame lies inside the padded samples.
pub proof fn frames_lie_inside(samples: nat, config: MelConfig, frame: nat)
    requires
        framable(samples, config),
        frame < frames_of(samples, config),
    ensures
        frame * config.hop_length + window_offset(config) + config.win_length <= padded_len(
            samples,
            config,
        ),
{
    let beyond = padded_len(samples, config) - config.n_fft;
    let hop = config.hop_length as int;
    if beyond > 0 {
        vstd::arithmetic::div_mod::lemma_fundamental_div_mod(beyond, hop);
        vstd::arithmetic::div_mod::lemma_mod_bound(beyond, hop);
        assert(frame * hop <= hop * (beyond / hop)) by (nonlinear_arith)
            requires
                frame <= beyond / hop,
                hop > 0,
        ;
    } else {
        assert(frame * hop == 0) by (nonlinear_arith)
            requires
                frame == 0,
        ;
    }
}

/// The frames reach the end of the samples: the last one begins less than a
/// step before the last place where a frame could begin, and none reaches
/// beyond the end.
pub proof fn frames_cover_the_samples(samples: nat, config: MelConfig)
    requires
        framable(samples, config),
        padded_len(samples, config) >= config.n_fft,
    ensures
        padded_len(samples, config) - config.n_fft - (frames_of(samples, config) - 1)
            * config.hop_length < config.hop_length,
        (frames_of(samples, config) - 1) * config.hop_length + config.n_fft <= padded_len(
            samples,
            config,
        ),
{
    let beyond = padded_len(samples, config) - config.n_fft;
    let hop = config.hop_length as int;
    vstd::arithmetic::div_mod::lemma_fundamental_div_mod(beyond, hop);
    vstd::arithmetic::div_mod::lemma_mod_bound(beyond, hop);
    if beyond == 0 {
        vstd::arithmetic::div_mod::lemma_div_basics(hop);
    }
    assert((frames_of(samples, config) - 1) * hop == hop * (beyond / hop)) by (nonlinear_arith)
        requires
            frames_of(samples, config) - 1 == beyond / hop,
    ;
}

/// Whether `out` is `samples` with each but the first lessened by its
/// predecessor.
pub open spec fn emphasized<T, E: Fn(T, T) -> T>(
    emphasize: E,
    samples: Seq<T>,
    out: Seq<T>,
) -> bool {
    &&& out.len() == samples.len()
    &&& samples.len() > 0 ==> out[0] == samples[0]
    &&& forall|i: int|
        1 <= i < samples.len() ==> emphasize.ensures(
            (samples[i], samples[i - 1]),
            #[trigger] out[i],
        )
}

/// `values` between zeros.
pub open spec fn padded_by<T>(values: Seq<T>, pad: nat, zero: T) -> Seq<T> {
    Seq::new(pad, |i: int| zero) + values + Seq::new(pad, |i: int| zero)
}

fn emphasize_and_pad<T: Copy, E: Fn(T, T) -> T>(
    samples: &Vec<T>,
    pad: usize,
    zero: T,
    emphasize: &E,
) -> (padded: Vec<T>)
    requires
        forall|a: T, b: T| #[trigger] emphasize.requires((a, b)),
        samples@.len() + 2 * pad <= usize::MAX,
    ensures
        exists|out: Seq<T>| #[trigger]
            emphasized(*emphasize, samples@, out) && padded@ == padded_by(out, pad as nat, zero),
{
    let mut padded: Vec<T> = Vec::new();
    let ghost mut out: Seq<T> = Seq::empty();
    for i in 0..pad
        invariant
            padded@.len() == i,
            forall|j: int| 0 <= j < i ==> #[trigger] padded@[j] == zero,
    {
        padded.push(zero);
    }
    let ghost front = Seq::new(pad as nat, |i: int| zero);
    assert(padded@ =~= front + out);
    for i in 0..samples.len()
        invariant
            forall|a: T, b: T| #[trigger] emphasize.requires((a, b)),
            out.len() == i,
            padded@ == front + out,
            i > 0 ==> out[0] == samples@[0],
            forall|j: int|
                1 <= j < i ==> emphasize.ensures((samples@[j], samples@[j - 1]), #[trigger] out[j]),
    {
        let value = if i == 0 {
            samples[0]
        } else {
            emphasize(samples[i], samples[i - 1])
        };
        padded.push(value);
        proof {
            let before = out;
            out = out.push(value);
            assert(padded@ =~= front + out);
            assert forall|j: int| 1 <= j < i + 1 implies emphasize.ensures(
                (samples@[j], samples@[j - 1]),
                #[trigger] out[j],
            ) by {
                if j < i {
                    assert(out[j] == before[j]);
                }
            }
        }
    }
    assert(emphasized(*emphasize, samples@, out));
    let ghost middle = padded@;
    for i in 0..pad
        invariant
            padded@ == middle + Seq::new(i as nat, |j: int| zero),
    {
        padded.push(zero);
        assert(padded@ =~= middle + Seq::new((i + 1) as nat, |j: int| zero));
    }
    assert(padded@ =~= padded_by(out, pad as nat, zero));
    padded
}

/// Whether `frame` holds the samples from `start` on under the window, which
/// lies `offset` places into it, and zeros elsewhere.
pub open spec fn windowed<T, W: Fn(T, T) -> T>(
    times: W,
    padded: Seq<T>,
    window: Seq<T>,
    config: MelConfig,
    start: int,
    zero: T,
    frame: Seq<T>,
) -> bool {
    let offset = window_offset(config);
    &&& frame.len() == config.n_fft
    &&& forall|i: int|
        0 <= i < config.n_fft ==> if offset <= i < offset + config.win_length {
            times.ensures((padded[start + i], window[i - offset]), #[trigger] frame[i])
        } else {
            frame[i] == zero
        }
}

fn window_frame<T: Copy, W: Fn(T, T) -> T>(
    padded: &Vec<T>,
    window: &Vec<T>,
    config: &MelConfig,
    start: usize,
    zero: T,
    times: &W,
) -> (frame: Vec<T>)
    requires
        forall|a: T, b: T| #[trigger] times.requires((a, b)),
        config.win_length <= config.n_fft,
        config.win_length <= window@.len(),
        start + window_offset(*config) + config.win_length <= padded@.len(),
    ensures
        windowed(*times, padded@, window@, *config, start as int, zero, frame@),
{
    let offset: usize = (config.n_fft - config.win_length) / 2;
    let len: usize = padded.len();
    let mut frame: Vec<T> = Vec::new();
    for i in 0..config.n_fft
        invariant
            forall|a: T, b: T| #[trigger] times.requires((a, b)),
            padded@.len() == len,
            offset == window_offset(*config),
            offset + config.win_length <= config.n_fft,
            config.win_length <= window@.len(),
            start + offset + config.win_length <= len,
            frame@.len() == i,
            forall|j: int|
                0 <= j < i ==> if offset <= j < offset + config.win_length {
                    times.ensures((padded@[start + j], window@[j - offset]), #[trigger] frame@[j])
                } else {
                    frame@[j] == zero
                },
    {
        if offset <= i && i < offset + config.win_length {
            let value = times(padded[start + i], window[i - offset]);
            frame.push(value);
        } else {
            frame.push(zero);
        }
    }
    frame
}

/// Whether `sums` holds the running sums of the weighted powers of a band,
/// begun at zero.
pub open spec fn band_runs_up<T, M: Fn(T, T, T) -> T>(
    accumulate: M,
    zero: T,
    filter: Seq<(usize, T)>,
    power: Seq<T>,
    sums: Seq<T>,
) -> bool {
    &&& sums.len() == filter.len() + 1
    &&& sums[0] == zero
    &&& forall|i: int|
        0 <= i < filter.len() ==> accumulate.ensures(
            (sums[i], (#[trigger] filter[i]).1, power[filter[i].0 as int]),
            sums[i + 1],
        )
}

/// Whether `energy` is the sum of the weighted powers of a band.
pub open spec fn is_band_energy<T, M: Fn(T, T, T) -> T>(
    accumulate: M,
    zero: T,
    filter: Seq<(usize, T)>,
    power: Seq<T>,
    energy: T,
) -> bool {
    exists|sums: Seq<T>| #[trigger]
        band_runs_up(accumulate, zero, filter, power, sums) && energy == sums.last()
}

fn band_energy<T: Copy, M: Fn(T, T, T) -> T>(
    filter: &Vec<(usize, T)>,
    power: &Vec<T>,
    zero: T,
    accumulate: &M,
) -> (energy: T)
    requires
        forall|a: T, b: T, c: T| #[trigger] accumulate.requires((a, b, c)),
        forall|i: int| 0 <= i < filter@.len() ==> (#[trigger] filter@[i]).0 < power@.len(),
    ensures
        is_band_energy(*accumulate, zero, filter@, power@, energy),
{
    let mut energy = zero;
    let ghost mut sums: Seq<T> = seq![zero];
    for i in 0..filter.len()
        invariant
            forall|a: T, b: T, c: T| #[trigger] accumulate.requires((a, b, c)),
            forall|j: int| 0 <= j < filter@.len() ==> (#[trigger] filter@[j]).0 < power@.len(),
            sums.len() == i + 1,
            sums[0] == zero,
            forall|j: int|
                0 <= j < i ==> accumulate.ensures(
                    (sums[j], (#[trigger] filter@[j]).1, power@[filter@[j].0 as int]),
                    sums[j + 1],
                ),
            energy == sums.last(),
    {
        let (bin, weight) = filter[i];
        energy = accumulate(energy, weight, power[bin]);
        proof {
            sums = sums.push(energy);
        }
    }
    assert(band_runs_up(*accumulate, zero, filter@, power@, sums));
    energy
}

/// Whether `row` holds the logarithms of the band energies of frame `at`.
pub open spec fn is_mel_row<
    T,
    W: Fn(T, T) -> T,
    P: Fn(&Vec<T>) -> Vec<T>,
    M: Fn(T, T, T) -> T,
    L: Fn(T) -> T,
>(
    times: W,
    power: P,
    accumulate: M,
    log: L,
    zero: T,
    padded: Seq<T>,
    window: Seq<T>,
    filters: Seq<Vec<(usize, T)>>,
    config: MelConfig,
    at: int,
    row: Seq<T>,
) -> bool {
    exists|frame: Vec<T>, powers: Vec<T>|
        {
            &&& windowed(times, padded, window, config, at * config.hop_length, zero, frame@)
            &&& #[trigger] power.ensures((&frame,), powers)
            &&& is_log_energies(accumulate, log, zero, filters, powers@, config.n_mels as int, row)
        }
}

/// Whether `row` holds the logarithms of the energies of the bands.
pub open spec fn is_log_energies<T, M: Fn(T, T, T) -> T, L: Fn(T) -> T>(
    accumulate: M,
    log: L,
    zero: T,
    filters: Seq<Vec<(usize, T)>>,
    powers: Seq<T>,
    bands: int,
    row: Seq<T>,
) -> bool {
    &&& row.len() == bands
    &&& forall|m: int|
        0 <= m < bands ==> is_log_energy(
            accumulate,
            log,
            zero,
            filters[m]@,
            powers,
            #[trigger] row[m],
        )
}

/// Whether `value` is the logarithm of the energy of a band.
pub open spec fn is_log_energy<T, M: Fn(T, T, T) -> T, L: Fn(T) -> T>(
    accumulate: M,
    log: L,
    zero: T,
    filter: Seq<(usize, T)>,
    powers: Seq<T>,
    value: T,
) -> bool {
    exists|energy: T|
        is_band_energy(accumulate, zero, filter, powers, energy) && #[trigger] log.ensures(
            (energy,),
            value,
        )
}

fn mel_row<T: Copy, M: Fn(T, T, T) -> T, L: Fn(T) -> T>(
    powers: &Vec<T>,
    filters: &Vec<Vec<(usize, T)>>,
    bands: usize,
    zero: T,
    accumulate: &M,
    log: &L,
) -> (row: Vec<T>)
    requires
        forall|a: T, b: T, c: T| #[trigger] accumulate.requires((a, b, c)),
        forall|a: T| #[trigger] log.requires((a,)),
        bands <= filters@.len(),
        forall|m: int, i: int|
            0 <= m < bands && 0 <= i < filters@[m]@.len() ==> (#[trigger] filters@[m]@[i]).0
                < powers@.len(),
    ensures
        is_log_energies(*accumulate, *log, zero, filters@, powers@, bands as int, row@),
{
    let mut row: Vec<T> = Vec::new();
    for m in 0..bands
        invariant
            forall|a: T, b: T, c: T| #[trigger] accumulate.requires((a, b, c)),
            forall|a: T| #[trigger] log.requires((a,)),
            bands <= filters@.len(),
            forall|m: int, i: int|
                0 <= m < bands && 0 <= i < filters@[m]@.len() ==> (#[trigger] filters@[m]@[i]).0
                    < powers@.len(),
            row@.len() == m,
            forall|k: int|
                0 <= k < m ==> is_log_energy(
                    *accumulate,
                    *log,
                    zero,
                    filters@[k]@,
                    powers@,
                    #[trigger] row@[k],
                ),
    {
        let energy = band_energy(&filters[m], powers, zero, accumulate);
        let value = log(energy);
        row.push(value);
        assert(is_log_energy(*accumulate, *log, zero, filters@[m as int]@, powers@, value));
    }
    row
}

/// The values of band `m` over all frames.
pub open spec fn band<T>(rows: Seq<Vec<T>>, m: int) -> Seq<T> {
    rows.map_values(|row: Vec<T>| row@[m])
}

/// Whether band `m` of `out` is what `normalize` makes of that of `rows`.
pub open spec fn normalizes_band<T, N: Fn(&Vec<T>) -> Vec<T>>(
    normalize: N,
    rows: Seq<Vec<T>>,
    out: Seq<Vec<T>>,
    m: int,
) -> bool {
    exists|before: Vec<T>, behind: Vec<T>|
        {
            &&& before@ == band(rows, m)
            &&& #[trigger] normalize.ensures((&before,), behind)
            &&& band(out, m) == behind@
        }
}

/// Whether `rows` has as many rows as frames, and each as many values as bands.
pub open spec fn is_grid<T>(rows: Seq<Vec<T>>, frames: int, bands: int) -> bool {
    &&& rows.len() == frames
    &&& forall|t: int| 0 <= t < frames ==> (#[trigger] rows[t])@.len() == bands
}

/// Whether `out` is `rows` with every band normalized over the frames; a
/// single frame is left alone.
pub open spec fn normalizes<T, N: Fn(&Vec<T>) -> Vec<T>>(
    normalize: N,
    rows: Seq<Vec<T>>,
    out: Seq<Vec<T>>,
    bands: int,
) -> bool {
    if rows.len() > 1 {
        &&& is_grid(out, rows.len() as int, bands)
        &&& forall|m: int| 0 <= m < bands ==> #[trigger] normalizes_band(normalize, rows, out, m)
    } else {
        out == rows
    }
}

fn normalize_bands<T: Copy, N: Fn(&Vec<T>) -> Vec<T>>(
    rows: Vec<Vec<T>>,
    bands: usize,
    normalize: &N,
) -> (out: Vec<Vec<T>>)
    requires
        is_grid(rows@, rows@.len() as int, bands as int),
        forall|v: Vec<T>| #[trigger] normalize.requires((&v,)),
        forall|v: Vec<T>, w: Vec<T>| #[trigger]
            normalize.ensures((&v,), w) ==> w@.len() == v@.len(),
    ensures
        normalizes(*normalize, rows@, out@, bands as int),
        is_grid(out@, rows@.len() as int, bands as int),
{
    if rows.len() <= 1 {
        return rows;
    }
    let frames: usize = rows.len();
    let mut columns: Vec<Vec<T>> = Vec::new();
    let ghost mut sources: Seq<Vec<T>> = Seq::empty();
    for m in 0..bands
        invariant
            frames == rows@.len(),
            is_grid(rows@, frames as int, bands as int),
            forall|v: Vec<T>| #[trigger] normalize.requires((&v,)),
            forall|v: Vec<T>, w: Vec<T>| #[trigger]
                normalize.ensures((&v,), w) ==> w@.len() == v@.len(),
            columns@.len() == m,
            sources.len() == m,
            forall|k: int|
                0 <= k < m ==> {
                    &&& (#[trigger] sources[k])@ == band(rows@, k)
                    &&& normalize.ensures((&sources[k],), columns@[k])
                },
            forall|k: int| 0 <= k < m ==> (#[trigger] columns@[k])@.len() == frames,
    {
        let mut column: Vec<T> = Vec::new();
        for t in 0..frames
            invariant
                frames == rows@.len(),
                is_grid(rows@, frames as int, bands as int),
                m < bands,
                column@.len() == t,
                forall|k: int| 0 <= k < t ==> #[trigger] column@[k] == rows@[k]@[m as int],
        {
            column.push(rows[t][m]);
        }
        assert(column@ =~= band(rows@, m as int));
        let normalized = normalize(&column);
        let ghost columns_before = columns@;
        let ghost sources_before = sources;
        columns.push(normalized);
        proof {
            sources = sources.push(column);
            assert forall|k: int| 0 <= k < m + 1 implies {
                &&& (#[trigger] sources[k])@ == band(rows@, k)
                &&& normalize.ensures((&sources[k],), columns@[k])
            } by {
                if k < m {
                    assert(sources[k] == sources_before[k]);
                    assert(columns@[k] == columns_before[k]);
                }
            }
        }
    }
    let mut out: Vec<Vec<T>> = Vec::new();
    for t in 0..frames
        invariant
            columns@.len() == bands,
            forall|k: int| 0 <= k < bands ==> (#[trigger] columns@[k])@.len() == frames,
            is_grid(out@, t as int, bands as int),
            forall|k: int, m: int|
                0 <= k < t && 0 <= m < bands ==> #[trigger] out@[k]@[m] == columns@[m]@[k],
    {
        let mut row: Vec<T> = Vec::new();
        for m in 0..bands
            invariant
                columns@.len() == bands,
                forall|k: int| 0 <= k < bands ==> (#[trigger] columns@[k])@.len() == frames,
                t < frames,
                row@.len() == m,
                forall|k: int| 0 <= k < m ==> #[trigger] row@[k] == columns@[k]@[t as int],
        {
            row.push(columns[m][t]);
        }
        out.push(row);
    }
    assert forall|m: int| 0 <= m < bands implies #[trigger] normalizes_band(
        *normalize,
        rows@,
        out@,
        m,
    ) by {
        assert(band(out@, m) =~= columns@[m]@);
        assert(sources[m]@ == band(rows@, m));
    }
    out
}

/// Whether `flat` holds the rows one behind the other.
pub open spec fn is_flat<T>(rows: Seq<Vec<T>>, bands: int, flat: Seq<T>) -> bool {
    &&& flat.len() == rows.len() * bands
    &&& forall|t: int, m: int|
        0 <= t < rows.len() && 0 <= m < bands ==> #[trigger] flat[t * bands + m] == (
        #[trigger] rows[t])@[m]
}

fn flatten<T: Copy>(rows: &Vec<Vec<T>>, bands: usize) -> (flat: Vec<T>)
    requires
        is_grid(rows@, rows@.len() as int, bands as int),
    ensures
        is_flat(rows@, bands as int, flat@),
{
    let mut flat: Vec<T> = Vec::new();
    assert(0 * bands == 0) by (nonlinear_arith);
    for t in 0..rows.len()
        invariant
            is_grid(rows@, rows@.len() as int, bands as int),
            flat@.len() == t * bands,
            forall|k: int, m: int|
                0 <= k < t && 0 <= m < bands ==> #[trigger] flat@[k * bands + m] == (
                #[trigger] rows@[k])@[m],
    {
        let ghost begun = flat@;
        for m in 0..bands
            invariant
                is_grid(rows@, rows@.len() as int, bands as int),
                t < rows@.len(),
                begun.len() == t * bands,
                flat@ == begun + rows@[t as int]@.take(m as int),
        {
            flat.push(rows[t][m]);
            assert(flat@ =~= begun + rows@[t as int]@.take(m + 1));
        }
        assert(t * bands + bands == (t + 1) * bands) by (nonlinear_arith);
        assert forall|k: int, m: int| 0 <= k < t + 1 && 0 <= m < bands implies #[trigger] flat@[k
            * bands + m] == (#[trigger] rows@[k])@[m] by {
            if k < t {
                assert(0 <= k * bands + m < t * bands) by (nonlinear_arith)
                    requires
                        0 <= k < t,
                        0 <= m < bands,
                ;
                assert(begun[k * bands + m] == rows@[k]@[m]);
            } else {
                assert(k * bands == t * bands);
            }
        }
    }
    flat
}

/// Whether `features` holds the normalized mel features of `samples`, frame by
/// frame.
pub open spec fn is_mel<
    T,
    E: Fn(T, T) -> T,
    W: Fn(T, T) -> T,
    P: Fn(&Vec<T>) -> Vec<T>,
    M: Fn(T, T, T) -> T,
    L: Fn(T) -> T,
    N: Fn(&Vec<T>) -> Vec<T>,
>(
    emphasize: E,
    times: W,
    power: P,
    accumulate: M,
    log: L,
    normalize: N,
    zero: T,
    samples: Seq<T>,
    window: Seq<T>,
    filters: Seq<Vec<(usize, T)>>,
    config: MelConfig,
    features: Seq<T>,
) -> bool {
    exists|loud: Seq<T>, rows: Seq<Vec<T>>, even: Seq<Vec<T>>|
        {
            &&& #[trigger] emphasized(emphasize, samples, loud)
            &&& rows.len() == frames_of(samples.len(), config)
            &&& forall|t: int|
                0 <= t < rows.len() ==> is_mel_row(
                    times,
                    power,
                    accumulate,
                    log,
                    zero,
                    padded_by(loud, pad_of(config), zero),
                    window,
                    filters,
                    config,
                    t,
                    (#[trigger] rows[t])@,
                )
            &&& #[trigger] normalizes(normalize, rows, even, config.n_mels as int)
            &&& is_flat(even, config.n_mels as int, features)
        }
}

/// The mel features of `samples`, frame by frame, and the number of frames.
/// The arithmetic is the caller's: `emphasize` lessens a sample by its
/// predecessor, `times` multiplies, `power` is the power spectrum of a frame,
/// `accumulate` adds a weighted power to a sum, `log` is the guarded
/// logarithm, and `normalize` normalizes a band over the frames.
pub fn compute_mel<
    T: Copy,
    E: Fn(T, T) -> T,
    W: Fn(T, T) -> T,
    P: Fn(&Vec<T>) -> Vec<T>,
    M: Fn(T, T, T) -> T,
    L: Fn(T) -> T,
    N: Fn(&Vec<T>) -> Vec<T>,
>(
    samples: &Vec<T>,
    config: &MelConfig,
    filters: &Vec<Vec<(usize, T)>>,
    window: &Vec<T>,
    zero: T,
    emphasize: E,
    times: W,
    power: P,
    accumulate: M,
    log: L,
    normalize: N,
) -> (mel: (Vec<T>, usize))
    requires
        framable(samples@.len(), *config),
        config.win_length <= window@.len(),
        config.n_mels <= filters@.len(),
        forall|m: int, i: int|
            0 <= m < config.n_mels && 0 <= i < filters@[m]@.len() ==> (
            #[trigger] filters@[m]@[i]).0 < bins_of(*config),
        forall|a: T, b: T| #[trigger] emphasize.requires((a, b)),
        forall|a: T, b: T| #[trigger] times.requires((a, b)),
        forall|v: Vec<T>| v@.len() == config.n_fft ==> #[trigger] power.requires((&v,)),
        forall|v: Vec<T>, w: Vec<T>| #[trigger]
            power.ensures((&v,), w) ==> w@.len() >= bins_of(*config),
        forall|a: T, b: T, c: T| #[trigger] accumulate.requires((a, b, c)),
        forall|a: T| #[trigger] log.requires((a,)),
        forall|v: Vec<T>| #[trigger] normalize.requires((&v,)),
        forall|v: Vec<T>, w: Vec<T>| #[trigger]
            normalize.ensures((&v,), w) ==> w@.len() == v@.len(),
    ensures
        mel.1 == frames_of(samples@.len(), *config),
        mel.0@.len() == mel.1 * config.n_mels,
        is_mel(
            emphasize,
            times,
            power,
            accumulate,
            log,
            normalize,
            zero,
            samples@,
            window@,
            filters@,
            *config,
            mel.0@,
        ),
{
    let layout = match mel_layout(samples.len(), config) {
        Some(layout) => layout,
        None => {
            assert(false);
            MelLayout { pad: 0, frame_count: 0, pad_left: 0 }
        },
    };
    let frame_count: usize = layout.frame_count;
    let padded = emphasize_and_pad(samples, layout.pad, zero, &emphasize);
    let ghost loud = choose|out: Seq<T>| #[trigger]
        emphasized(emphasize, samples@, out) && padded@ == padded_by(out, pad_of(*config), zero);
    let mut rows: Vec<Vec<T>> = Vec::new();
    for at in 0..frame_count
        invariant
            framable(samples@.len(), *config),
            frame_count == frames_of(samples@.len(), *config),
            padded@.len() == padded_len(samples@.len(), *config),
            config.win_length <= window@.len(),
            config.n_mels <= filters@.len(),
            forall|m: int, i: int|
                0 <= m < config.n_mels && 0 <= i < filters@[m]@.len() ==> (
                #[trigger] filters@[m]@[i]).0 < bins_of(*config),
            forall|a: T, b: T| #[trigger] times.requires((a, b)),
            forall|v: Vec<T>| v@.len() == config.n_fft ==> #[trigger] power.requires((&v,)),
            forall|v: Vec<T>, w: Vec<T>| #[trigger]
                power.ensures((&v,), w) ==> w@.len() >= bins_of(*config),
            forall|a: T, b: T, c: T| #[trigger] accumulate.requires((a, b, c)),
            forall|a: T| #[trigger] log.requires((a,)),
            is_grid(rows@, at as int, config.n_mels as int),
            forall|t: int|
                0 <= t < at ==> is_mel_row(
                    times,
                    power,
                    accumulate,
                    log,
                    zero,
                    padded@,
                    window@,
                    filters@,
                    *config,
                    t,
                    (#[trigger] rows@[t])@,
                ),
    {
        proof {
            frames_lie_inside(samples@.len(), *config, at as nat);
            assert(0 <= at * config.hop_length) by (nonlinear_arith)
                requires
                    0 <= at,
                    0 <= config.hop_length,
            ;
        }
        let start: usize = at * config.hop_length;
        let frame = window_frame(&padded, window, config, start, zero, &times);
        let powers = power(&frame);
        let row = mel_row(&powers, filters, config.n_mels, zero, &accumulate, &log);
        assert(is_mel_row(
            times,
            power,
            accumulate,
            log,
            zero,
            padded@,
            window@,
            filters@,
            *config,
            at as int,
            row@,
        ));
        rows.push(row);
    }
    let ghost raw = rows@;
    let even = normalize_bands(rows, config.n_mels, &normalize);
    let features = flatten(&even, config.n_mels);
    assert(emphasized(emphasize, samples@, loud) && normalizes(
        normalize,
        raw,
        even@,
        config.n_mels as int,
    ));
    (features, frame_count)
}

/// On which side of its peak a band covers a frequency, if at all.
#[derive(Debug, Clone, Copy, PartialEq, Eq, Structural)]
pub enum Slope {
    Rising,
    Falling,
    Outside,
}

/// The side of the peak at `center` on which the band from `left` to `right`
/// covers `freq`.
pub open spec fn slope_at(freq: F32Bits, left: F32Bits, center: F32Bits, right: F32Bits) -> Slope {
    if left.at_most(freq) && freq.at_most(center) {
        Slope::Rising
    } else if center.less(freq) && freq.at_most(right) {
        Slope::Falling
    } else {
        Slope::Outside
    }
}

fn slope_of(freq: F32Bits, left: F32Bits, center: F32Bits, right: F32Bits) -> (slope: Slope)
    ensures
        slope == slope_at(freq, left, center, right),
{
    if left.is_at_most(&freq) && freq.is_at_most(&center) {
        Slope::Rising
    } else if center.is_less(&freq) && freq.is_at_most(&right) {
        Slope::Falling
    } else {
        Slope::Outside
    }
}

/// Whether `weight` is the weight of `freq` in the band from `left` to `right`.
pub open spec fn is_weight<
    R: Fn(F32Bits, F32Bits, F32Bits, F32Bits) -> F32Bits,
    G: Fn(F32Bits, F32Bits, F32Bits, F32Bits) -> F32Bits,
>(
    rising: R,
    falling: G,
    freq: F32Bits,
    left: F32Bits,
    center: F32Bits,
    right: F32Bits,
    weight: F32Bits,
) -> bool {
    match slope_at(freq, left, center, right) {
        Slope::Rising => rising.ensures((freq, left, center, right), weight),
        Slope::Falling => falling.ensures((freq, left, center, right), weight),
        Slope::Outside => weight.bits == 0,
    }
}

/// The weights that are not zero, each with its place.
pub open spec fn nonzero(weights: Seq<F32Bits>) -> Seq<(usize, F32Bits)>
    decreases weights.len(),
{
    if weights.len() == 0 {
        Seq::empty()
    } else if weights.last().zero() {
        nonzero(weights.drop_last())
    } else {
        nonzero(weights.drop_last()).push(((weights.len() - 1) as usize, weights.last()))
    }
}

/// Whether `filter` is the band from `left` to `right` over `freqs`: the
/// frequencies with a weight other than zero.
pub open spec fn is_filter<
    R: Fn(F32Bits, F32Bits, F32Bits, F32Bits) -> F32Bits,
    G: Fn(F32Bits, F32Bits, F32Bits, F32Bits) -> F32Bits,
>(
    rising: R,
    falling: G,
    freqs: Seq<F32Bits>,
    left: F32Bits,
    center: F32Bits,
    right: F32Bits,
    filter: Seq<(usize, F32Bits)>,
) -> bool {
    exists|weights: Seq<F32Bits>|
        {
            &&& weights.len() == freqs.len()
            &&& forall|i: int|
                0 <= i < freqs.len() ==> is_weight(
                    rising,
                    falling,
                    freqs[i],
                    left,
                    center,
                    right,
                    #[trigger] weights[i],
                )
            &&& filter == #[trigger] nonzero(weights)
        }
}

fn mel_filter<
    R: Fn(F32Bits, F32Bits, F32Bits, F32Bits) -> F32Bits,
    G: Fn(F32Bits, F32Bits, F32Bits, F32Bits) -> F32Bits,
>(
    freqs: &Vec<F32Bits>,
    left: F32Bits,
    center: F32Bits,
    right: F32Bits,
    rising: &R,
    falling: &G,
) -> (filter: Vec<(usize, F32Bits)>)
    requires
        forall|a: F32Bits, b: F32Bits, c: F32Bits, d: F32Bits| #[trigger]
            rising.requires((a, b, c, d)),
        forall|a: F32Bits, b: F32Bits, c: F32Bits, d: F32Bits| #[trigger]
            falling.requires((a, b, c, d)),
    ensures
        is_filter(*rising, *falling, freqs@, left, center, right, filter@),
{
    let mut filter: Vec<(usize, F32Bits)> = Vec::new();
    let ghost mut weights: Seq<F32Bits> = Seq::empty();
    for bin in 0..freqs.len()
        invariant
            forall|a: F32Bits, b: F32Bits, c: F32Bits, d: F32Bits| #[trigger]
                rising.requires((a, b, c, d)),
            forall|a: F32Bits, b: F32Bits, c: F32Bits, d: F32Bits| #[trigger]
                falling.requires((a, b, c, d)),
            weights.len() == bin,
            forall|i: int|
                0 <= i < bin ==> is_weight(
                    *rising,
                    *falling,
                    freqs@[i],
                    left,
                    center,
                    right,
                    #[trigger] weights[i],
                ),
            filter@ == nonzero(weights),
    {
        let freq = freqs[bin];
        let weight = match slope_of(freq, left, center, right) {
            Slope::Rising => rising(freq, left, center, right),
            Slope::Falling => falling(freq, left, center, right),
            Slope::Outside => F32Bits { bits: 0 },
        };
        if !weight.is_zero() {
            filter.push((bin, weight));
        }
        proof {
            let before = weights;
            weights = weights.push(weight);
            assert(weights.drop_last() =~= before);
            assert forall|i: int| 0 <= i < bin + 1 implies is_weight(
                *rising,
                *falling,
                freqs@[i],
                left,
                center,
                right,
                #[trigger] weights[i],
            ) by {
                if i < bin {
                    assert(weights[i] == before[i]);
                }
            }
        }
    }
    filter
}

/// Whether `filters` are the mel bands over `freqs`, band `m` from `points[m]`
/// over its peak at `points[m + 1]` to `points[m + 2]`.
pub open spec fn is_filterbank<
    R: Fn(F32Bits, F32Bits, F32Bits, F32Bits) -> F32Bits,
    G: Fn(F32Bits, F32Bits, F32Bits, F32Bits) -> F32Bits,
>(
    rising: R,
    falling: G,
    bands: int,
    points: Seq<F32Bits>,
    freqs: Seq<F32Bits>,
    filters: Seq<Vec<(usize, F32Bits)>>,
) -> bool {
    &&& filters.len() == bands
    &&& forall|m: int|
        0 <= m < bands ==> is_filter(
            rising,
            falling,
            freqs,
            points[m],
            points[m + 1],
            points[m + 2],
            (#[trigger] filters[m])@,
        )
}

/// The mel bands over `freqs`, band `m` from `points[m]` over its peak at
/// `points[m + 1]` to `points[m + 2]`. The arithmetic is the caller's:
/// `rising` and `falling` weigh a frequency before and behind the peak.
pub fn mel_filterbank<
    R: Fn(F32Bits, F32Bits, F32Bits, F32Bits) -> F32Bits,
    G: Fn(F32Bits, F32Bits, F32Bits, F32Bits) -> F32Bits,
>(bands: usize, points: &Vec<F32Bits>, freqs: &Vec<F32Bits>, rising: R, falling: G) -> (filters:
    Vec<Vec<(usize, F32Bits)>>)
    requires
        points@.len() >= bands + 2,
        forall|a: F32Bits, b: F32Bits, c: F32Bits, d: F32Bits| #[trigger]
            rising.requires((a, b, c, d)),
        forall|a: F32Bits, b: F32Bits, c: F32Bits, d: F32Bits| #[trigger]
            falling.requires((a, b, c, d)),
    ensures
        is_filterbank(rising, falling, bands as int, points@, freqs@, filters@),
        filters@.len() == bands,
        forall|m: int|
            0 <= m < bands ==> is_filter(
                rising,
                falling,
                freqs@,
                points@[m],
                points@[m + 1],
                points@[m + 2],
                (#[trigger] filters@[m])@,
            ),
{
    let mut filters: Vec<Vec<(usize, F32Bits)>> = Vec::new();
    let count: usize = points.len();
    for m in 0..bands
        invariant
            count == points@.len(),
            count >= bands + 2,
            forall|a: F32Bits, b: F32Bits, c: F32Bits, d: F32Bits| #[trigger]
                rising.requires((a, b, c, d)),
            forall|a: F32Bits, b: F32Bits, c: F32Bits, d: F32Bits| #[trigger]
                falling.requires((a, b, c, d)),
            filters@.len() == m,
            forall|k: int|
                0 <= k < m ==> is_filter(
                    rising,
                    falling,
                    freqs@,
                    points@[k],
                    points@[k + 1],
                    points@[k + 2],
                    (#[trigger] filters@[k])@,
                ),
    {
        filters.push(
            mel_filter(freqs, points[m], points[m + 1], points[m + 2], &rising, &falling),
        );
    }
    filters
}

proof fn nonzero_places(weights: Seq<F32Bits>, i: int)
    requires
        weights.len() <= usize::MAX,
        0 <= i < nonzero(weights).len(),
    ensures
        nonzero(weights)[i].0 < weights.len(),
        nonzero(weights)[i].1 == weights[nonzero(weights)[i].0 as int],
        !nonzero(weights)[i].1.zero(),
    decreases weights.len(),
{
    if weights.len() > 0 {
        let rest = weights.drop_last();
        if i < nonzero(rest).len() {
            nonzero_places(rest, i);
        }
    }
}

/// A band holds places of `freqs` alone, and, where its ends and its peak are
/// in order, only such whose frequency lies between the ends.
pub proof fn filters_stay_in_their_band<
    R: Fn(F32Bits, F32Bits, F32Bits, F32Bits) -> F32Bits,
    G: Fn(F32Bits, F32Bits, F32Bits, F32Bits) -> F32Bits,
>(
    rising: R,
    falling: G,
    freqs: Seq<F32Bits>,
    left: F32Bits,
    center: F32Bits,
    right: F32Bits,
    filter: Seq<(usize, F32Bits)>,
    i: int,
)
    requires
        freqs.len() <= usize::MAX,
        is_filter(rising, falling, freqs, left, center, right, filter),
        0 <= i < filter.len(),
    ensures
        filter[i].0 < freqs.len(),
        left.at_most(center) && center.at_most(right) ==> {
            &&& left.at_most(freqs[filter[i].0 as int])
            &&& freqs[filter[i].0 as int].at_most(right)
        },
{
    let weights = choose|weights: Seq<F32Bits>|
        {
            &&& weights.len() == freqs.len()
            &&& forall|i: int|
                0 <= i < freqs.len() ==> is_weight(
                    rising,
                    falling,
                    freqs[i],
                    left,
                    center,
                    right,
                    #[trigger] weights[i],
                )
            &&& filter == #[trigger] nonzero(weights)
        };
    nonzero_places(weights, i);
    let place = filter[i].0 as int;
    assert(is_weight(rising, falling, freqs[place], left, center, right, weights[place]));
}

proof fn nonzero_is_in_order(weights: Seq<F32Bits>, j: int, k: int)
    requires
        weights.len() <= usize::MAX,
        0 <= j < k < nonzero(weights).len(),
    ensures
        nonzero(weights)[j].0 < nonzero(weights)[k].0,
    decreases weights.len(),
{
    if weights.len() > 0 {
        let rest = weights.drop_last();
        if k < nonzero(rest).len() {
            nonzero_is_in_order(rest, j, k);
        } else {
            nonzero_places(rest, j);
        }
    }
}

proof fn nonzero_is_complete(weights: Seq<F32Bits>, place: int) -> (i: int)
    requires
        weights.len() <= usize::MAX,
        0 <= place < weights.len(),
        !weights[place].zero(),
    ensures
        0 <= i < nonzero(weights).len(),
        nonzero(weights)[i] == (place as usize, weights[place]),
    decreases weights.len(),
{
    let rest = weights.drop_last();
    if place == weights.len() - 1 {
        nonzero(rest).len() as int
    } else {
        nonzero_is_complete(rest, place)
    }
}

/// The entries of a mel band. Each weighs a frequency of its own, the lower
/// ones first, and never by zero: one from the left end of the band up to its
/// peak by the rising side, one from there to the right end by the falling
/// side, and each side is told the frequency, the left end, the peak and the
/// right end, in this order. Band `m` has its left end at point `m`, its peak
/// at point `m` + 1 and its right end at point `m` + 2.
pub proof fn bands_weigh_their_frequencies<
    R: Fn(F32Bits, F32Bits, F32Bits, F32Bits) -> F32Bits,
    G: Fn(F32Bits, F32Bits, F32Bits, F32Bits) -> F32Bits,
>(
    rising: R,
    falling: G,
    bands: int,
    points: Seq<F32Bits>,
    freqs: Seq<F32Bits>,
    filters: Seq<Vec<(usize, F32Bits)>>,
    m: int,
    k: int,
)
    requires
        is_filterbank(rising, falling, bands, points, freqs, filters),
        freqs.len() <= usize::MAX,
        0 <= m < bands,
        0 <= k < filters[m]@.len(),
    ensures
        filters.len() == bands,
        filters[m]@[k].0 < freqs.len(),
        filters[m]@[k].1.bits != 0 && filters[m]@[k].1.bits != 0x8000_0000,
        forall|j: int| 0 <= j < k ==> (#[trigger] filters[m]@[j]).0 < filters[m]@[k].0,
        ({
            let (bin, weight) = filters[m]@[k];
            let freq = freqs[bin as int];
            let on_rise = points[m].at_most(freq) && freq.at_most(points[m + 1]);
            &&& on_rise ==> rising.ensures(
                (freq, points[m], points[m + 1], points[m + 2]),
                weight,
            )
            &&& !on_rise ==> {
                &&& points[m + 1].less(freq)
                &&& freq.at_most(points[m + 2])
                &&& falling.ensures((freq, points[m], points[m + 1], points[m + 2]), weight)
            }
        }),
{
    let filter = filters[m]@;
    let weights = band_weights(rising, falling, points, freqs, filters, bands, m);
    nonzero_places(weights, k);
    assert forall|j: int| 0 <= j < k implies (#[trigger] filter[j]).0 < filter[k].0 by {
        nonzero_is_in_order(weights, j, k);
    }
    let bin = filter[k].0 as int;
    assert(is_weight(
        rising,
        falling,
        freqs[bin],
        points[m],
        points[m + 1],
        points[m + 2],
        weights[bin],
    ));
}

/// The weights, zeros among them, that a band is made of.
proof fn band_weights<
    R: Fn(F32Bits, F32Bits, F32Bits, F32Bits) -> F32Bits,
    G: Fn(F32Bits, F32Bits, F32Bits, F32Bits) -> F32Bits,
>(
    rising: R,
    falling: G,
    points: Seq<F32Bits>,
    freqs: Seq<F32Bits>,
    filters: Seq<Vec<(usize, F32Bits)>>,
    bands: int,
    m: int,
) -> (weights: Seq<F32Bits>)
    requires
        is_filterbank(rising, falling, bands, points, freqs, filters),
        0 <= m < bands,
    ensures
        weights.len() == freqs.len(),
        forall|i: int|
            0 <= i < freqs.len() ==> is_weight(
                rising,
                falling,
                freqs[i],
                points[m],
                points[m + 1],
                points[m + 2],
                #[trigger] weights[i],
            ),
        filters[m]@ == nonzero(weights),
{
    assert(is_filter(
        rising,
        falling,
        freqs,
        points[m],
        points[m + 1],
        points[m + 2],
        filters[m]@,
    ));
    choose|weights: Seq<F32Bits>|
        {
            &&& weights.len() == freqs.len()
            &&& forall|i: int|
                0 <= i < freqs.len() ==> is_weight(
                    rising,
                    falling,
                    freqs[i],
                    points[m],
                    points[m + 1],
                    points[m + 2],
                    #[trigger] weights[i],
                )
            &&& filters[m]@ == #[trigger] nonzero(weights)
        }
}

/// No frequency of a mel band is passed over: one from the left end up to the
/// peak has an entry unless the rising side weighs it by zero, one from there
/// to the right end unless the falling side does.
pub proof fn bands_pass_over_no_frequency<
    R: Fn(F32Bits, F32Bits, F32Bits, F32Bits) -> F32Bits,
    G: Fn(F32Bits, F32Bits, F32Bits, F32Bits) -> F32Bits,
>(
    rising: R,
    falling: G,
    bands: int,
    points: Seq<F32Bits>,
    freqs: Seq<F32Bits>,
    filters: Seq<Vec<(usize, F32Bits)>>,
    m: int,
    bin: int,
)
    requires
        is_filterbank(rising, falling, bands, points, freqs, filters),
        freqs.len() <= usize::MAX,
        0 <= m < bands,
        0 <= bin < freqs.len(),
        forall|k: int| 0 <= k < filters[m]@.len() ==> (#[trigger] filters[m]@[k]).0 != bin,
    ensures
        ({
            let freq = freqs[bin];
            let on_rise = points[m].at_most(freq) && freq.at_most(points[m + 1]);
            let on_fall = points[m + 1].less(freq) && freq.at_most(points[m + 2]);
            &&& on_rise ==> exists|weight: F32Bits|
                (weight.bits == 0 || weight.bits == 0x8000_0000) && #[trigger] rising.ensures(
                    (freq, points[m], points[m + 1], points[m + 2]),
                    weight,
                )
            &&& on_fall && !on_rise ==> exists|weight: F32Bits|
                (weight.bits == 0 || weight.bits == 0x8000_0000) && #[trigger] falling.ensures(
                    (freq, points[m], points[m + 1], points[m + 2]),
                    weight,
                )
        }),
{
    let weights = band_weights(rising, falling, points, freqs, filters, bands, m);
    if !weights[bin].zero() {
        let k = nonzero_is_complete(weights, bin);
        assert(filters[m]@[k].0 == bin);
    }
    let weight = weights[bin];
    assert(is_weight(
        rising,
        falling,
        freqs[bin],
        points[m],
        points[m + 1],
        points[m + 2],
        weight,
    ));
}

/// How many frames samples are cut into: as many as begin a whole number of
/// steps into the samples with their zeros and end inside them, and at least
/// one. Half a frame of zeros stands before the samples and behind them, and
/// the window in the middle of a frame.
pub proof fn frames_step_through_the_samples(samples: nat, config: MelConfig)
    requires
        config.hop_length > 0,
        config.win_length <= config.n_fft,
    ensures
        pad_of(config) == config.n_fft / 2,
        bins_of(config) == config.n_fft / 2 + 1,
        padded_len(samples, config) == samples + config.n_fft / 2 + config.n_fft / 2,
        frames_of(samples, config) >= 1,
        ({
            let padded = samples + config.n_fft / 2 + config.n_fft / 2;
            let frames = frames_of(samples, config) as int;
            &&& padded >= config.n_fft ==> (frames - 1) * config.hop_length <= padded - config.n_fft
                < frames * config.hop_length
            &&& padded < config.n_fft ==> frames == 1
        }),
        2 * window_offset(config) <= config.n_fft - config.win_length <= 2 * window_offset(config)
            + 1,
{
    let padded = samples + config.n_fft / 2 + config.n_fft / 2;
    let beyond = padded - config.n_fft;
    let hop = config.hop_length as int;
    if beyond >= 0 {
        vstd::arithmetic::div_mod::lemma_fundamental_div_mod(beyond, hop);
        vstd::arithmetic::div_mod::lemma_mod_bound(beyond, hop);
        if beyond == 0 {
            vstd::arithmetic::div_mod::lemma_div_basics(hop);
        } else {
            vstd::arithmetic::div_mod::lemma_div_pos_is_pos(beyond, hop);
        }
        let frames = frames_of(samples, config) as int;
        let q = beyond / hop;
        assert((frames - 1) * hop == hop * q) by (nonlinear_arith)
            requires
                frames - 1 == q,
        ;
        assert(frames * hop == hop * q + hop) by (nonlinear_arith)
            requires
                frames - 1 == q,
        ;
    }
}

/// Samples are cut into frames whenever there is a step, a window that fits a
/// frame and room for the numbers: nothing else is refused.
pub proof fn framable_wherever_it_can_be_counted(samples: nat, config: MelConfig)
    ensures
        framable(samples, config) <==> {
            let padded = samples + config.n_fft / 2 + config.n_fft / 2;
            &&& config.hop_length > 0
            &&& config.win_length <= config.n_fft
            &&& padded <= usize::MAX
            &&& (config.n_fft - config.win_length) / 2 + config.win_length <= padded
            &&& frames_of(samples, config) * config.n_mels <= usize::MAX
            &&& frames_of(samples, config) <= usize::MAX
        },
{
}

/// The first sample is kept, and every other is weighed against the one right
/// before it.
pub proof fn samples_are_lessened_by_their_predecessors<T, E: Fn(T, T) -> T>(
    emphasize: E,
    samples: Seq<T>,
    out: Seq<T>,
    i: int,
)
    requires
        emphasized(emphasize, samples, out),
        0 <= i < samples.len(),
    ensures
        out.len() == samples.len(),
        i == 0 ==> out[i] == samples[i],
        i > 0 ==> emphasize.ensures((samples[i], samples[i - 1]), out[i]),
{
}

/// The samples stand behind `pad` zeros, and as many zeros stand behind them.
pub proof fn zeros_stand_around_the_samples<T>(values: Seq<T>, pad: nat, zero: T, i: int)
    requires
        0 <= i < values.len() + 2 * pad,
    ensures
        padded_by(values, pad, zero).len() == values.len() + 2 * pad,
        pad <= i < pad + values.len() ==> padded_by(values, pad, zero)[i] == values[i - pad],
        i < pad ==> padded_by(values, pad, zero)[i] == zero,
        i >= pad + values.len() ==> padded_by(values, pad, zero)[i] == zero,
{
}

/// Frame `at` is cut from place `at` times the step of the padded samples on;
/// the window lies in its middle, and the frame is zero outside of it. Its
/// powers are those that `power` gives of the whole frame, and there is one
/// value for each band.
pub proof fn row_is_read_from_its_frame<
    T,
    W: Fn(T, T) -> T,
    P: Fn(&Vec<T>) -> Vec<T>,
    M: Fn(T, T, T) -> T,
    L: Fn(T) -> T,
>(
    times: W,
    power: P,
    accumulate: M,
    log: L,
    zero: T,
    padded: Seq<T>,
    window: Seq<T>,
    filters: Seq<Vec<(usize, T)>>,
    config: MelConfig,
    at: int,
    row: Seq<T>,
)
    requires
        is_mel_row(
            times,
            power,
            accumulate,
            log,
            zero,
            padded,
            window,
            filters,
            config,
            at,
            row,
        ),
    ensures
        row.len() == config.n_mels,
        exists|frame: Vec<T>, powers: Vec<T>|
            {
                &&& #[trigger] power.ensures((&frame,), powers)
                &&& frame@.len() == config.n_fft
                &&& forall|i: int|
                    0 <= i < config.n_fft ==> {
                        let offset = (config.n_fft - config.win_length) / 2;
                        if offset <= i < offset + config.win_length {
                            times.ensures(
                                (padded[at * config.hop_length + i], window[i - offset]),
                                #[trigger] frame@[i],
                            )
                        } else {
                            frame@[i] == zero
                        }
                    }
                &&& forall|m: int|
                    0 <= m < config.n_mels ==> is_log_energy(
                        accumulate,
                        log,
                        zero,
                        filters[m]@,
                        powers@,
                        #[trigger] row[m],
                    )
            },
{
    let (frame, powers) = choose|frame: Vec<T>, powers: Vec<T>|
        {
            &&& windowed(times, padded, window, config, at * config.hop_length, zero, frame@)
            &&& #[trigger] power.ensures((&frame,), powers)
            &&& is_log_energies(accumulate, log, zero, filters, powers@, config.n_mels as int, row)
        };
    assert(power.ensures((&frame,), powers));
}

/// The value of a band is the logarithm of a sum, begun at zero, over the
/// entries of the band in their order: of each its own weight goes in, and the
/// power at its own frequency.
pub proof fn band_sums_its_weighted_powers<T, M: Fn(T, T, T) -> T, L: Fn(T) -> T>(
    accumulate: M,
    log: L,
    zero: T,
    filter: Seq<(usize, T)>,
    powers: Seq<T>,
    value: T,
)
    requires
        is_log_energy(accumulate, log, zero, filter, powers, value),
    ensures
        exists|sums: Seq<T>|
            {
                &&& #[trigger] sums.len() == filter.len() + 1
                &&& sums[0] == zero
                &&& log.ensures((sums[filter.len() as int],), value)
                &&& forall|k: int|
                    0 <= k < filter.len() ==> accumulate.ensures(
                        (sums[k], (#[trigger] filter[k]).1, powers[filter[k].0 as int]),
                        sums[k + 1],
                    )
            },
{
    let energy = choose|energy: T|
        is_band_energy(accumulate, zero, filter, powers, energy) && #[trigger] log.ensures(
            (energy,),
            value,
        );
    let sums = choose|sums: Seq<T>| #[trigger]
        band_runs_up(accumulate, zero, filter, powers, sums) && energy == sums.last();
    assert(sums.len() == filter.len() + 1);
}

/// With more than one frame every band is normalized for itself, over the
/// values that it has in all frames, in their order; a single frame is left
/// alone.
pub proof fn bands_are_normalized_over_the_frames<T, N: Fn(&Vec<T>) -> Vec<T>>(
    normalize: N,
    rows: Seq<Vec<T>>,
    out: Seq<Vec<T>>,
    bands: int,
    m: int,
)
    requires
        normalizes(normalize, rows, out, bands),
        0 <= m < bands,
    ensures
        out.len() == rows.len(),
        rows.len() <= 1 ==> out == rows,
        rows.len() > 1 ==> exists|before: Vec<T>, behind: Vec<T>|
            {
                &&& #[trigger] normalize.ensures((&before,), behind)
                &&& before@.len() == rows.len()
                &&& behind@.len() == rows.len()
                &&& forall|t: int| 0 <= t < rows.len() ==> before@[t] == (#[trigger] rows[t])@[m]
                &&& forall|t: int| 0 <= t < rows.len() ==> (#[trigger] out[t])@[m] == behind@[t]
            },
{
    if rows.len() > 1 {
        assert(normalizes_band(normalize, rows, out, m));
        let (before, behind) = choose|before: Vec<T>, behind: Vec<T>|
            {
                &&& before@ == band(rows, m)
                &&& #[trigger] normalize.ensures((&before,), behind)
                &&& band(out, m) == behind@
            };
        assert forall|t: int| 0 <= t < rows.len() implies (#[trigger] out[t])@[m]
            == behind@[t] by {
            assert(band(out, m)[t] == out[t]@[m]);
        }
        assert(normalize.ensures((&before,), behind));
    }
}

/// The features are those of the frames one behind the other, and those of a
/// frame its bands in their order: the samples are lessened by their
/// predecessors, put between half a frame of zeros on each side, and cut into
/// frames; each frame gives a row of band values; the bands are normalized over
/// the frames.
pub proof fn features_stand_frame_by_frame<
    T,
    E: Fn(T, T) -> T,
    W: Fn(T, T) -> T,
    P: Fn(&Vec<T>) -> Vec<T>,
    M: Fn(T, T, T) -> T,
    L: Fn(T) -> T,
    N: Fn(&Vec<T>) -> Vec<T>,
>(
    emphasize: E,
    times: W,
    power: P,
    accumulate: M,
    log: L,
    normalize: N,
    zero: T,
    samples: Seq<T>,
    window: Seq<T>,
    filters: Seq<Vec<(usize, T)>>,
    config: MelConfig,
    features: Seq<T>,
)
    requires
        is_mel(
            emphasize,
            times,
            power,
            accumulate,
            log,
            normalize,
            zero,
            samples,
            window,
            filters,
            config,
            features,
        ),
    ensures
        features.len() == frames_of(samples.len(), config) * config.n_mels,
        exists|loud: Seq<T>, rows: Seq<Vec<T>>, even: Seq<Vec<T>>|
            {
                &&& #[trigger] emphasized(emphasize, samples, loud)
                &&& #[trigger] normalizes(normalize, rows, even, config.n_mels as int)
                &&& rows.len() == frames_of(samples.len(), config)
                &&& even.len() == rows.len()
                &&& forall|t: int|
                    0 <= t < rows.len() ==> is_mel_row(
                        times,
                        power,
                        accumulate,
                        log,
                        zero,
                        padded_by(loud, (config.n_fft / 2) as nat, zero),
                        window,
                        filters,
                        config,
                        t,
                        (#[trigger] rows[t])@,
                    )
                &&& forall|t: int, m: int|
                    0 <= t < rows.len() && 0 <= m < config.n_mels ==> (#[trigger] even[t])@[m]
                        == #[trigger] features[t * config.n_mels + m]
            },
{
    let (loud, rows, even) = choose|loud: Seq<T>, rows: Seq<Vec<T>>, even: Seq<Vec<T>>|
        {
            &&& #[trigger] emphasized(emphasize, samples, loud)
            &&& rows.len() == frames_of(samples.len(), config)
            &&& forall|t: int|
                0 <= t < rows.len() ==> is_mel_row(
                    times,
                    power,
                    accumulate,
                    log,
                    zero,
                    padded_by(loud, pad_of(config), zero),
                    window,
                    filters,
                    config,
                    t,
                    (#[trigger] rows[t])@,
                )
            &&& #[trigger] normalizes(normalize, rows, even, config.n_mels as int)
            &&& is_flat(even, config.n_mels as int, features)
        };
    assert(emphasized(emphasize, samples, loud) && normalizes(
        normalize,
        rows,
        even,
        config.n_mels as int,
    ));
}

/// Samples are laid out with half a frame of zeros on each side, in one frame
/// and one more for every further step that ends inside, and with the window in
/// the middle of a frame; audio at the rate of the front end is taken, and no
/// other.
pub proof fn samples_are_laid_out(
    samples: usize,
    config: MelConfig,
    layout: Option<MelLayout>,
    sample_rate: u32,
    checked: Result<(), NodeError>,
)
    requires
        is_layout(samples, config, layout),
        checks_rate(config, sample_rate, checked),
    ensures
        layout matches Some(l) ==> {
            let padded = samples + config.n_fft / 2 + config.n_fft / 2;
            &&& l.pad == config.n_fft / 2
            &&& 2 * l.pad_left <= config.n_fft - config.win_length <= 2 * l.pad_left + 1
            &&& l.frame_count >= 1
            &&& padded >= config.n_fft ==> (l.frame_count - 1) * config.hop_length <= padded
                - config.n_fft < l.frame_count * config.hop_length
            &&& padded < config.n_fft ==> l.frame_count == 1
        },
        layout is Some ==> config.hop_length > 0 && config.win_length <= config.n_fft,
        checked is Ok <==> sample_rate == config.sample_rate,
        checked matches Err(error) ==> error == (NodeError::FrontendRate {
            expected: config.sample_rate,
            got: sample_rate,
        }),
{
    if layout is Some {
        frames_step_through_the_samples(samples as nat, config);
    }
}

} // verus!
