//! What holds of every turn, whatever the models answer.

use crate::codes;
use crate::config::LFM25AudioOnnxConfig;
use crate::error::NodeError;
use crate::text;
use crate::turn::model::{
    Phase, TurnKind, TurnState, AUDIO_TURN_STEPS, INTERLEAVED_AUDIO_RUN, INTERLEAVED_TEXT_RUN,
    TEXT_TURN_STEPS,
};
use crate::turn::{self, AudioStamp, DecoderReadout, TurnRequest};
use vstd::prelude::*;

verus! {

/// The result of a piece of outside work.
pub enum TurnEvent {
    Token(u32),
    Codes(Seq<i64>),
    Embedded,
    Text(Seq<char>),
    Waveform(nat),
}

/// An item given out by a turn.
pub enum TurnOutput {
    Text(Seq<char>),
    Audio { frames: Seq<Seq<i64>>, pts_us: nat, len: nat },
}

/// Whether a turn in `state` waits for `event`.
pub open spec fn accepts(state: TurnState, event: TurnEvent) -> bool {
    match event {
        TurnEvent::Token(_) => state.phase == Phase::RunDecoder && !state.in_audio,
        TurnEvent::Codes(sampled) => {
            &&& state.phase == Phase::RunDecoder
            &&& state.in_audio
            &&& sampled.len() == 8
        },
        TurnEvent::Embedded => state.phase is EmbedToken || state.phase is EmbedFrame,
        TurnEvent::Text(_) => state.phase == Phase::FlushText || state.phase == Phase::LastText,
        TurnEvent::Waveform(_) => state.phase is Detokenize || state.phase == Phase::LastAudio,
    }
}

/// The state after `event`.
pub open spec fn after(state: TurnState, event: TurnEvent) -> TurnState {
    match event {
        TurnEvent::Token(token) => state.after_token(token),
        TurnEvent::Codes(sampled) => state.after_codes(sampled),
        TurnEvent::Embedded => state.after_embedding(),
        TurnEvent::Text(text) => state.after_text(text),
        TurnEvent::Waveform(len) => state.after_waveform(len),
    }
}

/// What is given out on `event`.
pub open spec fn given_out(state: TurnState, event: TurnEvent) -> Seq<TurnOutput> {
    match event {
        TurnEvent::Text(text) => if state.gives_out(text) {
            seq![TurnOutput::Text(text)]
        } else {
            Seq::empty()
        },
        TurnEvent::Waveform(len) => seq![
            TurnOutput::Audio { frames: state.batch, pts_us: state.pts_us(), len },
        ],
        _ => Seq::empty(),
    }
}

/// The state after all of `events`, the first of them first.
pub open spec fn run(start: TurnState, events: Seq<TurnEvent>) -> TurnState
    decreases events.len(),
{
    if events.len() == 0 {
        start
    } else {
        after(run(start, events.drop_last()), events.last())
    }
}

/// Whether each of `events` comes when the turn waits for it.
pub open spec fn legal(start: TurnState, events: Seq<TurnEvent>) -> bool
    decreases events.len(),
{
    events.len() > 0 ==> {
        &&& legal(start, events.drop_last())
        &&& accepts(run(start, events.drop_last()), events.last())
    }
}

/// Everything given out on `events`.
pub open spec fn outputs(start: TurnState, events: Seq<TurnEvent>) -> Seq<TurnOutput>
    decreases events.len(),
{
    if events.len() == 0 {
        Seq::empty()
    } else {
        outputs(start, events.drop_last()) + given_out(
            run(start, events.drop_last()),
            events.last(),
        )
    }
}

/// How many of `events` are results of the decoder.
pub open spec fn decoder_runs(events: Seq<TurnEvent>) -> nat
    decreases events.len(),
{
    if events.len() == 0 {
        0
    } else {
        decoder_runs(events.drop_last()) + match events.last() {
            TurnEvent::Token(_) => 1nat,
            TurnEvent::Codes(_) => 1nat,
            _ => 0nat,
        }
    }
}

/// How many of `events` are tokens.
pub open spec fn token_count(events: Seq<TurnEvent>) -> nat
    decreases events.len(),
{
    if events.len() == 0 {
        0
    } else {
        token_count(events.drop_last()) + if events.last() is Token {
            1nat
        } else {
            0nat
        }
    }
}

/// How many of `events` are frames.
pub open spec fn frame_count(events: Seq<TurnEvent>) -> nat
    decreases events.len(),
{
    if events.len() == 0 {
        0
    } else {
        frame_count(events.drop_last()) + if events.last() is Codes {
            1nat
        } else {
            0nat
        }
    }
}

/// The frames among `events` that stand for sound, with their codes clamped.
pub open spec fn sound_frames(events: Seq<TurnEvent>) -> Seq<Seq<i64>>
    decreases events.len(),
{
    if events.len() == 0 {
        Seq::empty()
    } else {
        let earlier = sound_frames(events.drop_last());
        match events.last() {
            TurnEvent::Codes(sampled) => if codes::ends_audio(sampled) {
                earlier
            } else {
                earlier.push(codes::clamped(sampled))
            },
            _ => earlier,
        }
    }
}

/// The frames behind all audio given out.
pub open spec fn frames_given_out(given: Seq<TurnOutput>) -> Seq<Seq<i64>>
    decreases given.len(),
{
    if given.len() == 0 {
        Seq::empty()
    } else {
        let earlier = frames_given_out(given.drop_last());
        match given.last() {
            TurnOutput::Audio { frames, pts_us, len } => earlier + frames,
            TurnOutput::Text(_) => earlier,
        }
    }
}

/// How many samples of audio were given out.
pub open spec fn samples_given_out(given: Seq<TurnOutput>) -> nat
    decreases given.len(),
{
    if given.len() == 0 {
        0
    } else {
        samples_given_out(given.drop_last()) + match given.last() {
            TurnOutput::Audio { frames, pts_us, len } => len,
            TurnOutput::Text(_) => 0nat,
        }
    }
}

/// Whether `given` holds audio.
pub open spec fn has_audio(given: Seq<TurnOutput>) -> bool {
    exists|i: int| 0 <= i < given.len() && (#[trigger] given[i]) is Audio
}

/// Every state that a turn comes to is valid, and its settings never change.
pub proof fn turn_stays_valid(start: TurnState, events: Seq<TurnEvent>)
    requires
        start.valid(),
        legal(start, events),
    ensures
        run(start, events).valid(),
        run(start, events).kind == start.kind,
        run(start, events).limit == start.limit,
        run(start, events).first_chunk == start.first_chunk,
        run(start, events).chunk == start.chunk,
        run(start, events).rate == start.rate,
    decreases events.len(),
{
    if events.len() > 0 {
        turn_stays_valid(start, events.drop_last());
        step_keeps_valid(run(start, events.drop_last()), events.last());
    }
}

proof fn step_keeps_valid(state: TurnState, event: TurnEvent)
    requires
        state.valid(),
        accepts(state, event),
    ensures
        after(state, event).valid(),
        after(state, event).kind == state.kind,
        after(state, event).limit == state.limit,
        after(state, event).first_chunk == state.first_chunk,
        after(state, event).chunk == state.chunk,
        after(state, event).rate == state.rate,
{
}

/// A turn that is not over waits for something.
pub proof fn turn_is_never_stuck(state: TurnState)
    requires
        state.valid(),
        state.phase != Phase::Finished,
    ensures
        exists|event: TurnEvent| accepts(state, event),
{
    let event = match state.phase {
        Phase::RunDecoder => if state.in_audio {
            TurnEvent::Codes(codes::end_frame())
        } else {
            TurnEvent::Token(0)
        },
        Phase::EmbedToken(_) => TurnEvent::Embedded,
        Phase::EmbedFrame(_) => TurnEvent::Embedded,
        Phase::FlushText => TurnEvent::Text(Seq::empty()),
        Phase::LastText => TurnEvent::Text(Seq::empty()),
        _ => TurnEvent::Waveform(0),
    };
    assert(accepts(state, event));
}

/// A turn that is over waits for nothing.
pub proof fn finished_turn_takes_nothing(state: TurnState, event: TurnEvent)
    requires
        state.phase == Phase::Finished,
    ensures
        !accepts(state, event),
{
}

/// The decoder runs of a turn are counted, and never exceed its limit.
pub proof fn turn_keeps_its_budget(start: TurnState, events: Seq<TurnEvent>)
    requires
        start.valid(),
        legal(start, events),
    ensures
        run(start, events).steps == start.steps + decoder_runs(events),
        start.steps + decoder_runs(events) <= start.limit,
    decreases events.len(),
{
    turn_stays_valid(start, events);
    if events.len() > 0 {
        turn_keeps_its_budget(start, events.drop_last());
    }
}

/// A turn on text runs the decoder at most 512 times, one on audio at most
/// 256 times, and neither more often than configured.
pub proof fn decoder_runs_are_bounded(
    config: &LFM25AudioOnnxConfig,
    speech_only: bool,
    interleaved: bool,
    seq_len: nat,
    events: Seq<TurnEvent>,
)
    ensures
        legal(TurnState::on_text_input(config, speech_only, seq_len), events) ==> decoder_runs(events)
            <= config.max_new_tokens && decoder_runs(events) <= TEXT_TURN_STEPS,
        legal(TurnState::on_audio_input(config, interleaved, seq_len), events) ==> decoder_runs(
            events,
        ) <= config.max_new_tokens && decoder_runs(events) <= AUDIO_TURN_STEPS,
{
    let on_text = TurnState::on_text_input(config, speech_only, seq_len);
    let on_audio = TurnState::on_audio_input(config, interleaved, seq_len);
    if legal(on_text, events) {
        turn_keeps_its_budget(on_text, events);
    }
    if legal(on_audio, events) {
        turn_keeps_its_budget(on_audio, events);
    }
}

/// How many events a turn has taken at most, by what it waits for.
spec fn event_bound(state: TurnState) -> int {
    3 * state.steps + match state.phase {
        Phase::EmbedToken(_) => -2int,
        Phase::FlushText => -1int,
        Phase::Detokenize(_) => -2int,
        Phase::EmbedFrame(_) => -1int,
        Phase::LastAudio => 1int,
        Phase::Finished => 2int,
        _ => 0int,
    }
}

proof fn events_stay_bounded(start: TurnState, events: Seq<TurnEvent>)
    requires
        start.valid(),
        start.steps == 0,
        start.phase == Phase::RunDecoder || start.phase == Phase::Finished,
        legal(start, events),
    ensures
        events.len() <= event_bound(run(start, events)),
    decreases events.len(),
{
    if events.len() > 0 {
        events_stay_bounded(start, events.drop_last());
        turn_stays_valid(start, events.drop_last());
    }
}

/// Every turn comes to its end: it takes at most three events for each
/// decoder run that it may make, and two more.
pub proof fn turn_comes_to_its_end(
    config: &LFM25AudioOnnxConfig,
    speech_only: bool,
    interleaved: bool,
    seq_len: nat,
    events: Seq<TurnEvent>,
)
    requires
        legal(TurnState::on_text_input(config, speech_only, seq_len), events) || legal(
            TurnState::on_audio_input(config, interleaved, seq_len),
            events,
        ),
    ensures
        events.len() <= 3 * config.max_new_tokens + 2,
        events.len() <= 3 * TEXT_TURN_STEPS + 2,
{
    let on_text = TurnState::on_text_input(config, speech_only, seq_len);
    let on_audio = TurnState::on_audio_input(config, interleaved, seq_len);
    if legal(on_text, events) {
        events_stay_bounded(on_text, events);
        turn_stays_valid(on_text, events);
    } else {
        events_stay_bounded(on_audio, events);
        turn_stays_valid(on_audio, events);
    }
}

/// The count that a turn reports is the number of items it gave out.
pub proof fn turn_counts_what_it_gives_out(start: TurnState, events: Seq<TurnEvent>)
    requires
        start.valid(),
        legal(start, events),
    ensures
        run(start, events).emitted == start.emitted + outputs(start, events).len(),
    decreases events.len(),
{
    if events.len() > 0 {
        turn_counts_what_it_gives_out(start, events.drop_last());
    }
}

proof fn frames_of_concat(a: Seq<TurnOutput>, b: Seq<TurnOutput>)
    requires
        b.len() <= 1,
    ensures
        frames_given_out(a + b) == frames_given_out(a) + frames_given_out(b),
        samples_given_out(a + b) == samples_given_out(a) + samples_given_out(b),
{
    if b.len() == 0 {
        assert(a + b =~= a);
        assert(frames_given_out(a + b) =~= frames_given_out(a) + frames_given_out(b));
    } else {
        assert((a + b).drop_last() =~= a);
        assert(b.drop_last() =~= Seq::empty());
        reveal_with_fuel(frames_given_out, 2);
        reveal_with_fuel(samples_given_out, 2);
        assert(frames_given_out(a + b) =~= frames_given_out(a) + frames_given_out(b));
    }
}

proof fn frames_are_conserved(start: TurnState, events: Seq<TurnEvent>)
    requires
        start.valid(),
        legal(start, events),
    ensures
        frames_given_out(outputs(start, events)) + run(start, events).batch == start.batch
            + sound_frames(events),
    decreases events.len(),
{
    if events.len() == 0 {
        assert(frames_given_out(outputs(start, events)) + run(start, events).batch =~= start.batch
            + sound_frames(events));
    } else {
        let earlier = events.drop_last();
        let state = run(start, earlier);
        let event = events.last();
        frames_are_conserved(start, earlier);
        turn_stays_valid(start, earlier);
        let given = given_out(state, event);
        frames_of_concat(outputs(start, earlier), given);
        reveal_with_fuel(frames_given_out, 2);
        let told = frames_given_out(outputs(start, earlier));
        let sampled_before = sound_frames(earlier);
        let batch = run(start, events).batch;
        match event {
            TurnEvent::Waveform(len) => {
                assert(given.drop_last() =~= Seq::empty());
                assert(frames_given_out(given) =~= state.batch);
                assert((told + state.batch) + batch =~= told + state.batch);
            },
            TurnEvent::Text(text) => {
                if given.len() > 0 {
                    assert(given.drop_last() =~= Seq::empty());
                }
                assert(frames_given_out(given) =~= Seq::empty());
                assert(told + frames_given_out(given) =~= told);
                assert(batch == state.batch);
            },
            TurnEvent::Codes(sampled) => {
                assert(told + frames_given_out(given) =~= told);
                if codes::ends_audio(sampled) {
                    assert(batch == state.batch);
                } else {
                    let sound = codes::clamped(sampled);
                    assert(batch == state.batch.push(sound));
                    assert(told + batch =~= (told + state.batch).push(sound));
                    assert(start.batch + sampled_before.push(sound) =~= (start.batch
                        + sampled_before).push(sound));
                }
            },
            _ => {
                assert(told + frames_given_out(given) =~= told);
                assert(batch == state.batch);
            },
        }
    }
}

/// No frame is lost, repeated or moved: the frames behind the audio given
/// out, followed by those still waiting, are exactly the sound frames sampled
/// since the turn began, in their order. At the end none is waiting.
pub proof fn every_frame_is_given_out_once(
    config: &LFM25AudioOnnxConfig,
    speech_only: bool,
    interleaved: bool,
    seq_len: nat,
    events: Seq<TurnEvent>,
)
    ensures
        ({
            let start = TurnState::on_text_input(config, speech_only, seq_len);
            legal(start, events) ==> {
                &&& frames_given_out(outputs(start, events)) + run(start, events).batch
                    == sound_frames(events)
                &&& run(start, events).phase == Phase::Finished ==> frames_given_out(
                    outputs(start, events),
                ) == sound_frames(events)
            }
        }),
        ({
            let start = TurnState::on_audio_input(config, interleaved, seq_len);
            legal(start, events) ==> {
                &&& frames_given_out(outputs(start, events)) + run(start, events).batch
                    == sound_frames(events)
                &&& run(start, events).phase == Phase::Finished ==> frames_given_out(
                    outputs(start, events),
                ) == sound_frames(events)
            }
        }),
{
    let on_text = TurnState::on_text_input(config, speech_only, seq_len);
    let on_audio = TurnState::on_audio_input(config, interleaved, seq_len);
    if legal(on_text, events) {
        frames_are_conserved(on_text, events);
        turn_stays_valid(on_text, events);
        assert(on_text.batch + sound_frames(events) =~= sound_frames(events));
        assert(run(on_text, events).phase == Phase::Finished ==> frames_given_out(
            outputs(on_text, events),
        ) + run(on_text, events).batch =~= frames_given_out(outputs(on_text, events)));
    }
    if legal(on_audio, events) {
        frames_are_conserved(on_audio, events);
        turn_stays_valid(on_audio, events);
        assert(on_audio.batch + sound_frames(events) =~= sound_frames(events));
        assert(run(on_audio, events).phase == Phase::Finished ==> frames_given_out(
            outputs(on_audio, events),
        ) + run(on_audio, events).batch =~= frames_given_out(outputs(on_audio, events)));
    }
}

/// No code above the last one that stands for sound is ever given out.
pub proof fn given_out_codes_stand_for_sound(events: Seq<TurnEvent>, at: int, book: int)
    requires
        0 <= at < sound_frames(events).len(),
        0 <= book < sound_frames(events)[at].len(),
    ensures
        sound_frames(events)[at][book] <= codes::LAST_SOUND_CODE,
    decreases events.len(),
{
    let earlier = sound_frames(events.drop_last());
    if at < earlier.len() {
        given_out_codes_stand_for_sound(events.drop_last(), at, book);
    }
}

proof fn stamps_follow_samples(start: TurnState, events: Seq<TurnEvent>)
    requires
        start.valid(),
        start.samples == 0,
        legal(start, events),
    ensures
        run(start, events).phase != Phase::Finished ==> run(start, events).samples
            == samples_given_out(outputs(start, events)),
        forall|k: int|
            0 <= k < outputs(start, events).len() ==> match #[trigger] outputs(start, events)[k] {
                TurnOutput::Audio { frames, pts_us, len } => pts_us == samples_given_out(
                    outputs(start, events).take(k),
                ) * 1_000_000 / start.rate,
                TurnOutput::Text(_) => true,
            },
    decreases events.len(),
{
    if events.len() > 0 {
        let earlier = events.drop_last();
        let state = run(start, earlier);
        let event = events.last();
        stamps_follow_samples(start, earlier);
        turn_stays_valid(start, earlier);
        let before = outputs(start, earlier);
        let given = given_out(state, event);
        let all = outputs(start, events);
        frames_of_concat(before, given);
        reveal_with_fuel(samples_given_out, 2);
        if given.len() > 0 {
            assert(given.drop_last() =~= Seq::empty());
        }
        assert forall|k: int| 0 <= k < all.len() implies match #[trigger] all[k] {
            TurnOutput::Audio { frames, pts_us, len } => pts_us == samples_given_out(all.take(k))
                * 1_000_000 / start.rate,
            TurnOutput::Text(_) => true,
        } by {
            if k < before.len() {
                assert(all[k] == before[k]);
                assert(all.take(k) =~= before.take(k));
            } else {
                assert(all.take(k) =~= before);
            }
        }
    }
}

/// A chunk of audio begins where the audio before it ended: its time stamp is
/// the number of samples given out earlier, at the configured sample rate.
pub proof fn audio_is_stamped_without_gaps(
    config: &LFM25AudioOnnxConfig,
    speech_only: bool,
    interleaved: bool,
    seq_len: nat,
    events: Seq<TurnEvent>,
    k: int,
)
    ensures
        ({
            let start = TurnState::on_text_input(config, speech_only, seq_len);
            let given = outputs(start, events);
            legal(start, events) && 0 <= k < given.len() && given[k] is Audio
                ==> given[k]->pts_us == samples_given_out(given.take(k)) * 1_000_000
                / config.output_sample_rate as nat
        }),
        ({
            let start = TurnState::on_audio_input(config, interleaved, seq_len);
            let given = outputs(start, events);
            legal(start, events) && 0 <= k < given.len() && given[k] is Audio
                ==> given[k]->pts_us == samples_given_out(given.take(k)) * 1_000_000
                / config.output_sample_rate as nat
        }),
{
    let on_text = TurnState::on_text_input(config, speech_only, seq_len);
    let on_audio = TurnState::on_audio_input(config, interleaved, seq_len);
    if legal(on_text, events) {
        stamps_follow_samples(on_text, events);
    }
    if legal(on_audio, events) {
        stamps_follow_samples(on_audio, events);
    }
}

proof fn samples_grow(given: Seq<TurnOutput>, j: int, k: int)
    requires
        0 <= j <= k <= given.len(),
    ensures
        samples_given_out(given.take(j)) <= samples_given_out(given.take(k)),
    decreases k - j,
{
    if j < k {
        samples_grow(given, j, k - 1);
        assert(given.take(k).drop_last() =~= given.take(k - 1));
    }
}

/// Time stamps never go back.
pub proof fn stamps_never_go_back(
    start: TurnState,
    events: Seq<TurnEvent>,
    j: int,
    k: int,
)
    requires
        start.valid(),
        start.samples == 0,
        start.rate > 0,
        legal(start, events),
        0 <= j <= k < outputs(start, events).len(),
        outputs(start, events)[j] is Audio,
        outputs(start, events)[k] is Audio,
    ensures
        outputs(start, events)[j]->pts_us <= outputs(start, events)[k]->pts_us,
{
    let given = outputs(start, events);
    stamps_follow_samples(start, events);
    samples_grow(given, j, k);
    let a = samples_given_out(given.take(j)) * 1_000_000;
    let b = samples_given_out(given.take(k)) * 1_000_000;
    let first = given[j];
    let second = given[k];
    assert(first->pts_us == a / start.rate);
    assert(second->pts_us == b / start.rate);
    vstd::arithmetic::div_mod::lemma_div_is_ordered(a as int, b as int, start.rate as int);
}

/// How many frames the chunk at `k` has to hold.
pub open spec fn chunk_size(start: TurnState, given: Seq<TurnOutput>, k: int) -> nat {
    if has_audio(given.take(k)) {
        start.chunk
    } else {
        start.first_chunk
    }
}

/// The first chunk of audio holds as many frames as configured for it, and
/// every later one as many as configured for those. Only the last item of a
/// turn that is over may hold fewer. None is empty.
pub proof fn chunks_are_of_the_configured_size(
    start: TurnState,
    events: Seq<TurnEvent>,
    k: int,
)
    requires
        start.valid(),
        !start.started,
        start.first_chunk >= 1,
        start.chunk >= 1,
        legal(start, events),
        0 <= k < outputs(start, events).len(),
        outputs(start, events)[k] is Audio,
    ensures
        ({
            let given = outputs(start, events);
            let size = chunk_size(start, given, k);
            ||| given[k]->frames.len() == size
            ||| {
                &&& given[k]->frames.len() < size
                &&& k == given.len() - 1
                &&& run(start, events).phase == Phase::Finished
            }
        }),
        outputs(start, events)[k]->frames.len() > 0,
{
    chunks_stay_of_size(start, events);
}

proof fn chunks_stay_of_size(start: TurnState, events: Seq<TurnEvent>)
    requires
        start.valid(),
        !start.started,
        start.first_chunk >= 1,
        start.chunk >= 1,
        legal(start, events),
    ensures
        run(start, events).phase != Phase::Finished ==> run(start, events).started == has_audio(
            outputs(start, events),
        ),
        forall|k: int|
            0 <= k < outputs(start, events).len() && (#[trigger] outputs(start, events)[k]) is Audio
                ==> ({
                let given = outputs(start, events);
                let size = chunk_size(start, given, k);
                ||| given[k]->frames.len() == size
                ||| {
                    &&& 0 < given[k]->frames.len() < size
                    &&& k == given.len() - 1
                    &&& run(start, events).phase == Phase::Finished
                }
            }),
    decreases events.len(),
{
    if events.len() > 0 {
        let earlier = events.drop_last();
        let state = run(start, earlier);
        let event = events.last();
        chunks_stay_of_size(start, earlier);
        turn_stays_valid(start, earlier);
        let before = outputs(start, earlier);
        let given = given_out(state, event);
        let all = outputs(start, events);
        assert(given.len() == 0 ==> all =~= before);
        assert forall|k: int| 0 <= k < all.len() && (#[trigger] all[k]) is Audio implies ({
            let size = chunk_size(start, all, k);
            ||| all[k]->frames.len() == size
            ||| {
                &&& 0 < all[k]->frames.len() < size
                &&& k == all.len() - 1
                &&& run(start, events).phase == Phase::Finished
            }
        }) by {
            if k < before.len() {
                assert(all[k] == before[k]);
                assert(all.take(k) =~= before.take(k));
            } else {
                assert(all.take(k) =~= before);
                assert(all[k] == given[0]);
            }
        }
        if event is Waveform {
            assert(all[all.len() - 1] is Audio);
        }
        if has_audio(before) {
            let i = choose|i: int| 0 <= i < before.len() && (#[trigger] before[i]) is Audio;
            assert(all[i] == before[i]);
        }
        if has_audio(all) && !(event is Waveform) {
            let i = choose|i: int| 0 <= i < all.len() && (#[trigger] all[i]) is Audio;
            assert(i < before.len());
            assert(before[i] == all[i]);
        }
    }
}

/// A turn on audio that is not interleaved gives out one text at most, and
/// nothing else.
pub proof fn transcription_gives_out_text_alone(
    config: &LFM25AudioOnnxConfig,
    seq_len: nat,
    events: Seq<TurnEvent>,
)
    requires
        legal(TurnState::on_audio_input(config, false, seq_len), events),
    ensures
        outputs(TurnState::on_audio_input(config, false, seq_len), events).len() <= 1,
        forall|k: int|
            0 <= k < outputs(
                TurnState::on_audio_input(config, false, seq_len),
                events,
            ).len() ==> (#[trigger] outputs(
                TurnState::on_audio_input(config, false, seq_len),
                events,
            )[k]) is Text,
        run(TurnState::on_audio_input(config, false, seq_len), events).phase != Phase::Finished
            ==> outputs(TurnState::on_audio_input(config, false, seq_len), events).len() == 0,
    decreases events.len(),
{
    let start = TurnState::on_audio_input(config, false, seq_len);
    if events.len() > 0 {
        transcription_gives_out_text_alone(config, seq_len, events.drop_last());
        turn_stays_valid(start, events.drop_last());
    }
}

/// A turn on text gives out one text at most, before all audio.
pub proof fn speech_follows_its_text(
    config: &LFM25AudioOnnxConfig,
    speech_only: bool,
    seq_len: nat,
    events: Seq<TurnEvent>,
)
    requires
        legal(TurnState::on_text_input(config, speech_only, seq_len), events),
    ensures
        forall|k: int|
            1 <= k < outputs(TurnState::on_text_input(config, speech_only, seq_len), events).len() ==> (
            #[trigger] outputs(TurnState::on_text_input(config, speech_only, seq_len), events)[k]) is Audio,
        ({
            let state = run(TurnState::on_text_input(config, speech_only, seq_len), events);
            !state.in_audio && state.phase != Phase::Finished ==> outputs(
                TurnState::on_text_input(config, speech_only, seq_len),
                events,
            ).len() == 0 && state.batch.len() == 0
        }),
    decreases events.len(),
{
    let start = TurnState::on_text_input(config, speech_only, seq_len);
    if events.len() > 0 {
        speech_follows_its_text(config, speech_only, seq_len, events.drop_last());
        turn_stays_valid(start, events.drop_last());
    }
}

/// A turn on text for speech alone gives out audio and nothing else, whatever
/// text the model generates on the way.
pub proof fn speech_gives_out_audio_alone(
    config: &LFM25AudioOnnxConfig,
    seq_len: nat,
    events: Seq<TurnEvent>,
)
    requires
        legal(TurnState::on_text_input(config, true, seq_len), events),
    ensures
        forall|k: int|
            0 <= k < outputs(TurnState::on_text_input(config, true, seq_len), events).len() ==> (
            #[trigger] outputs(TurnState::on_text_input(config, true, seq_len), events)[k]) is Audio,
    decreases events.len(),
{
    let start = TurnState::on_text_input(config, true, seq_len);
    if events.len() > 0 {
        speech_gives_out_audio_alone(config, seq_len, events.drop_last());
        turn_stays_valid(start, events.drop_last());
    }
}

/// An interleaved turn that has just gone over to text generates at most six
/// tokens before it gives out text or ends.
pub proof fn text_runs_are_short(start: TurnState, events: Seq<TurnEvent>)
    requires
        start.valid(),
        start.interleaves(),
        start.phase == Phase::RunDecoder,
        !start.in_audio,
        start.modality_left == INTERLEAVED_TEXT_RUN,
        legal(start, events),
        forall|i: int| 0 <= i < events.len() ==> !((#[trigger] events[i]) is Text),
    ensures
        token_count(events) <= INTERLEAVED_TEXT_RUN,
        frame_count(events) == 0,
{
    text_run_counts_down(start, events);
}

proof fn text_run_counts_down(start: TurnState, events: Seq<TurnEvent>)
    requires
        start.valid(),
        start.interleaves(),
        start.phase == Phase::RunDecoder,
        !start.in_audio,
        start.modality_left == INTERLEAVED_TEXT_RUN,
        legal(start, events),
        forall|i: int| 0 <= i < events.len() ==> !((#[trigger] events[i]) is Text),
    ensures
        token_count(events) <= INTERLEAVED_TEXT_RUN,
        frame_count(events) == 0,
        !run(start, events).in_audio,
        !(run(start, events).phase is Detokenize),
        !(run(start, events).phase is EmbedFrame),
        run(start, events).modality_left == INTERLEAVED_TEXT_RUN - token_count(events),
        run(start, events).phase == Phase::RunDecoder ==> run(start, events).modality_left > 0,
    decreases events.len(),
{
    if events.len() > 0 {
        let earlier = events.drop_last();
        assert forall|i: int| 0 <= i < earlier.len() implies !((#[trigger] earlier[i]) is Text) by {
            assert(earlier[i] == events[i]);
        }
        assert(!(events[events.len() - 1] is Text));
        text_run_counts_down(start, earlier);
        turn_stays_valid(start, earlier);
    }
}

/// An interleaved turn that has just gone over to audio, before the end of
/// its text, generates at most twelve frames before the next token.
pub proof fn audio_runs_are_short(start: TurnState, events: Seq<TurnEvent>)
    requires
        start.valid(),
        start.interleaves(),
        start.phase == Phase::RunDecoder,
        start.in_audio,
        !start.text_done,
        start.modality_left == INTERLEAVED_AUDIO_RUN,
        legal(start, events),
        token_count(events) == 0,
    ensures
        frame_count(events) <= INTERLEAVED_AUDIO_RUN,
{
    audio_run_counts_down(start, events);
}

proof fn audio_run_counts_down(start: TurnState, events: Seq<TurnEvent>)
    requires
        start.valid(),
        start.interleaves(),
        start.phase == Phase::RunDecoder,
        start.in_audio,
        !start.text_done,
        start.modality_left == INTERLEAVED_AUDIO_RUN,
        legal(start, events),
        token_count(events) == 0,
    ensures
        frame_count(events) <= INTERLEAVED_AUDIO_RUN,
        !run(start, events).text_done,
        !(run(start, events).phase is EmbedToken),
        !(run(start, events).phase is FlushText),
        run(start, events).in_audio ==> {
            &&& run(start, events).modality_left == INTERLEAVED_AUDIO_RUN - frame_count(events)
            &&& run(start, events).modality_left > 0
        },
    decreases events.len(),
{
    if events.len() > 0 {
        audio_run_counts_down(start, events.drop_last());
        turn_stays_valid(start, events.drop_last());
    }
}

/// How many tokens were generated since the last frame.
pub open spec fn token_run(events: Seq<TurnEvent>) -> nat
    decreases events.len(),
{
    if events.len() == 0 {
        0
    } else {
        match events.last() {
            TurnEvent::Token(_) => token_run(events.drop_last()) + 1,
            TurnEvent::Codes(_) => 0,
            _ => token_run(events.drop_last()),
        }
    }
}

/// How many frames were generated since the last token.
pub open spec fn frame_run(events: Seq<TurnEvent>) -> nat
    decreases events.len(),
{
    if events.len() == 0 {
        0
    } else {
        match events.last() {
            TurnEvent::Token(_) => 0,
            TurnEvent::Codes(_) => frame_run(events.drop_last()) + 1,
            _ => frame_run(events.drop_last()),
        }
    }
}

/// An interleaved turn never generates more than six tokens in a row, nor more
/// than twelve frames in a row before the end of its text.
pub proof fn runs_are_short(config: &LFM25AudioOnnxConfig, seq_len: nat, events: Seq<TurnEvent>)
    requires
        legal(TurnState::on_audio_input(config, true, seq_len), events),
    ensures
        token_run(events) <= INTERLEAVED_TEXT_RUN,
        !run(TurnState::on_audio_input(config, true, seq_len), events).text_done ==> frame_run(
            events,
        ) <= INTERLEAVED_AUDIO_RUN,
{
    runs_count_down(config, seq_len, events);
}

/// Whether what is left of the run and what was generated of it add up.
spec fn counts_down(state: TurnState, events: Seq<TurnEvent>) -> bool {
    if state.in_audio {
        !state.text_done ==> {
            &&& state.modality_left > 0
            &&& frame_run(events) + state.modality_left == INTERLEAVED_AUDIO_RUN
        }
    } else {
        &&& state.modality_left > 0
        &&& token_run(events) + state.modality_left <= INTERLEAVED_TEXT_RUN
    }
}

proof fn runs_count_down(config: &LFM25AudioOnnxConfig, seq_len: nat, events: Seq<TurnEvent>)
    requires
        legal(TurnState::on_audio_input(config, true, seq_len), events),
    ensures
        token_run(events) <= INTERLEAVED_TEXT_RUN,
        ({
            let state = run(TurnState::on_audio_input(config, true, seq_len), events);
            &&& !state.text_done ==> frame_run(events) <= INTERLEAVED_AUDIO_RUN
            &&& match state.phase {
                Phase::RunDecoder => counts_down(state, events),
                Phase::EmbedToken(_) => {
                    &&& token_run(events) + state.modality_left <= INTERLEAVED_TEXT_RUN
                    &&& frame_run(events) == 0
                },
                Phase::FlushText => frame_run(events) == 0,
                Phase::Detokenize(_) => counts_down(state, events),
                Phase::EmbedFrame(_) => counts_down(state, events),
                _ => true,
            }
        }),
    decreases events.len(),
{
    let start = TurnState::on_audio_input(config, true, seq_len);
    if events.len() > 0 {
        runs_count_down(config, seq_len, events.drop_last());
        turn_stays_valid(start, events.drop_last());
    }
}

/// After the end of its text, an interleaved turn goes on with audio until a
/// frame ends it: where a decoder run yielded a frame of sound, whatever else is
/// done before the next one, that one yields a frame too.
pub proof fn speech_goes_on_after_the_text(
    config: &LFM25AudioOnnxConfig,
    seq_len: nat,
    events: Seq<TurnEvent>,
    sampled: Seq<i64>,
    more: Seq<TurnEvent>,
)
    requires
        legal(
            TurnState::on_audio_input(config, true, seq_len),
            events.push(TurnEvent::Codes(sampled)) + more,
        ),
        run(TurnState::on_audio_input(config, true, seq_len), events).text_done,
        !codes::ends_audio(sampled),
        decoder_runs(more) == 0,
    ensures
        run(
            TurnState::on_audio_input(config, true, seq_len),
            events.push(TurnEvent::Codes(sampled)) + more,
        ).in_audio,
    decreases more.len(),
{
    let start = TurnState::on_audio_input(config, true, seq_len);
    let spoken = events.push(TurnEvent::Codes(sampled));
    let all = spoken + more;
    if more.len() == 0 {
        assert(all =~= spoken);
        assert(spoken.drop_last() =~= events);
    } else {
        assert(all.drop_last() =~= spoken + more.drop_last());
        assert(all.last() == more.last());
        speech_goes_on_after_the_text(config, seq_len, events, sampled, more.drop_last());
        turn_stays_valid(start, all.drop_last());
    }
}

/// With the audio-first setting, an interleaved turn goes over to audio right
/// after its first token, unless that token ends the turn.
pub proof fn audio_first_goes_over_at_once(
    config: &LFM25AudioOnnxConfig,
    seq_len: nat,
    token: u32,
    text: Seq<char>,
)
    requires
        config.audio_first_interleaved,
        config.max_new_tokens >= 2,
        token != crate::turn::model::IM_END_TOKEN,
    ensures
        ({
            let start = TurnState::on_audio_input(config, true, seq_len);
            let told = start.after_token(token).after_embedding();
            &&& told.phase == Phase::FlushText
            &&& told.after_text(text).phase == Phase::RunDecoder
            &&& told.after_text(text).in_audio
        }),
{
}

/// The last result of the decoder.
pub open spec fn last_result(events: Seq<TurnEvent>) -> Option<TurnEvent>
    decreases events.len(),
{
    if events.len() == 0 {
        None
    } else {
        match events.last() {
            TurnEvent::Token(_) => Some(events.last()),
            TurnEvent::Codes(_) => Some(events.last()),
            _ => last_result(events.drop_last()),
        }
    }
}

/// How many of `events` are embeddings.
pub open spec fn embeddings(events: Seq<TurnEvent>) -> nat
    decreases events.len(),
{
    if events.len() == 0 {
        0
    } else {
        embeddings(events.drop_last()) + if events.last() is Embedded {
            1nat
        } else {
            0nat
        }
    }
}

/// Whether `token` was generated.
pub open spec fn was_generated(events: Seq<TurnEvent>, token: u32) -> bool
    decreases events.len(),
{
    events.len() > 0 && (events.last() == TurnEvent::Token(token) || was_generated(
        events.drop_last(),
        token,
    ))
}

/// The tokens that were generated, but for the one that ends the turn.
pub open spec fn tokens_of(events: Seq<TurnEvent>) -> Seq<u32>
    decreases events.len(),
{
    if events.len() == 0 {
        Seq::empty()
    } else {
        let earlier = tokens_of(events.drop_last());
        match events.last() {
            TurnEvent::Token(token) => if token == 7 {
                earlier
            } else {
                earlier.push(token)
            },
            _ => earlier,
        }
    }
}

/// Whether the tokens were turned into text since the last of them was
/// generated.
pub open spec fn text_is_told(events: Seq<TurnEvent>) -> bool
    decreases events.len(),
{
    if events.len() == 0 {
        true
    } else {
        match events.last() {
            TurnEvent::Text(_) => true,
            TurnEvent::Token(token) => token == 7 && text_is_told(events.drop_last()),
            _ => text_is_told(events.drop_last()),
        }
    }
}

/// Whether the decoder goes on with audio after these events, by the rules of
/// the kind of turn.
spec fn speaks_next(kind: TurnKind, events: Seq<TurnEvent>) -> bool {
    match last_result(events) {
        None => false,
        Some(TurnEvent::Token(token)) => match kind {
            TurnKind::Text { speech_only } => token == 128 || token == 130,
            TurnKind::Audio { interleaved, audio_first } => interleaved && (token_run(events) == 6
                || was_generated(events, 130) || (audio_first && decoder_runs(events) == 1)),
        },
        Some(TurnEvent::Codes(sampled)) => match kind {
            TurnKind::Text { speech_only } => true,
            TurnKind::Audio { interleaved, audio_first } => sampled[0] != 2048 && (frame_run(events)
                != 12 || was_generated(events, 130)),
        },
        _ => false,
    }
}

/// Whether the last result of the decoder ends the turn.
spec fn result_ends(kind: TurnKind, events: Seq<TurnEvent>) -> bool {
    match last_result(events) {
        Some(TurnEvent::Token(token)) => token == 7,
        Some(TurnEvent::Codes(sampled)) => kind is Text && sampled[0] == 2048,
        _ => false,
    }
}

/// The frame that is fed back for the codes of the depthformer.
spec fn fed_back(sampled: Seq<i64>) -> Seq<i64> {
    if sampled[0] == 2048 {
        Seq::new(8, |b: int| 2048i64)
    } else {
        Seq::new(
            8,
            |b: int|
                if sampled[b] > 2047 {
                    2047i64
                } else {
                    sampled[b]
                },
        )
    }
}

/// What is left of a run, where it is counted.
spec fn run_is_counted(state: TurnState, events: Seq<TurnEvent>) -> bool {
    state.interleaves() ==> if state.in_audio {
        !was_generated(events, 130) ==> {
            &&& state.modality_left > 0
            &&& frame_run(events) + state.modality_left == 12
        }
    } else {
        &&& state.modality_left > 0
        &&& token_run(events) + state.modality_left == 6
    }
}

/// Where a turn stands, by what happened in it.
spec fn follows_script(state: TurnState, seq_len: nat, events: Seq<TurnEvent>) -> bool {
    let kind = state.kind;
    let told = text_is_told(events);
    &&& state.generated == tokens_of(events)
    &&& state.steps == decoder_runs(events)
    &&& match state.phase {
        Phase::RunDecoder => {
            &&& decoder_runs(events) < state.limit
            &&& !result_ends(kind, events)
            &&& state.in_audio == speaks_next(kind, events)
            &&& state.text_done == (state.interleaves() && was_generated(events, 130))
            &&& state.seq_len == if last_result(events) is None {
                seq_len
            } else {
                1
            }
            &&& run_is_counted(state, events)
            &&& state.in_audio ==> told
            &&& embeddings(events) == decoder_runs(events)
        },
        Phase::EmbedToken(token) => {
            &&& token != 7
            &&& !state.in_audio
            &&& last_result(events) == Some(TurnEvent::Token(token))
            &&& (state.text_done || (state.interleaves() && token == 130)) == (state.interleaves()
                && was_generated(events, 130))
            &&& state.interleaves() ==> token_run(events) + state.modality_left == 6
            &&& frame_run(events) == 0
            &&& embeddings(events) + 1 == decoder_runs(events)
        },
        Phase::FlushText => {
            &&& !result_ends(kind, events)
            &&& last_result(events) is Some
            &&& last_result(events)->0 is Token
            &&& speaks_next(kind, events)
            &&& state.seq_len == 1
            &&& state.text_done == (state.interleaves() && was_generated(events, 130))
            &&& state.interleaves() ==> frame_run(events) == 0
            &&& embeddings(events) == decoder_runs(events)
        },
        Phase::Detokenize(frame) => {
            &&& !result_ends(kind, events)
            &&& last_result(events) is Some
            &&& last_result(events)->0 matches TurnEvent::Codes(sampled)
            &&& sampled.len() == 8
            &&& frame == fed_back(sampled)
            &&& state.in_audio == speaks_next(kind, events)
            &&& state.text_done == (state.interleaves() && was_generated(events, 130))
            &&& run_is_counted(state, events)
            &&& told
            &&& embeddings(events) + 1 == decoder_runs(events)
        },
        Phase::EmbedFrame(frame) => {
            &&& !result_ends(kind, events)
            &&& last_result(events) is Some
            &&& last_result(events)->0 matches TurnEvent::Codes(sampled)
            &&& sampled.len() == 8
            &&& frame == fed_back(sampled)
            &&& state.in_audio == speaks_next(kind, events)
            &&& state.text_done == (state.interleaves() && was_generated(events, 130))
            &&& run_is_counted(state, events)
            &&& told
            &&& embeddings(events) + 1 == decoder_runs(events)
        },
        Phase::LastText => {
            &&& result_ends(kind, events) || decoder_runs(events) == state.limit
            &&& tokens_of(events).len() > 0
        },
        Phase::LastAudio => {
            &&& result_ends(kind, events) || decoder_runs(events) == state.limit
            &&& told
        },
        Phase::Finished => {
            &&& result_ends(kind, events) || decoder_runs(events) == state.limit
            &&& told
        },
    }
}

proof fn frame_is_fed_back(sampled: Seq<i64>)
    requires
        sampled.len() == 8,
    ensures
        !codes::ends_audio(sampled) ==> codes::clamped(sampled) == fed_back(sampled),
        codes::ends_audio(sampled) ==> codes::end_frame() == fed_back(sampled),
{
    if codes::ends_audio(sampled) {
        assert(codes::end_frame() =~= fed_back(sampled));
    } else {
        assert(codes::clamped(sampled) =~= fed_back(sampled));
    }
}

proof fn told_without_tokens(events: Seq<TurnEvent>)
    requires
        tokens_of(events).len() == 0,
    ensures
        text_is_told(events),
    decreases events.len(),
{
    if events.len() > 0 {
        told_without_tokens(events.drop_last());
    }
}

#[verifier::rlimit(40)]
proof fn turn_follows_its_script(
    config: &LFM25AudioOnnxConfig,
    kind: TurnKind,
    limit: nat,
    seq_len: nat,
    events: Seq<TurnEvent>,
)
    requires
        limit <= 512,
        legal(TurnState::fresh(config, kind, limit, seq_len), events),
    ensures
        run(TurnState::fresh(config, kind, limit, seq_len), events).kind == kind,
        run(TurnState::fresh(config, kind, limit, seq_len), events).limit == limit,
        follows_script(
            run(TurnState::fresh(config, kind, limit, seq_len), events),
            seq_len,
            events,
        ),
    decreases events.len(),
{
    let start = TurnState::fresh(config, kind, limit, seq_len);
    if events.len() > 0 {
        let earlier = events.drop_last();
        turn_follows_its_script(config, kind, limit, seq_len, earlier);
        turn_stays_valid(start, earlier);
        let state = run(start, earlier);
        let next = run(start, events);
        told_without_tokens_if_none(events);
        match events.last() {
            TurnEvent::Token(token) => {
                assert(next.generated =~= tokens_of(events));
            },
            TurnEvent::Codes(sampled) => {
                frame_is_fed_back(sampled);
            },
            _ => {},
        }
    }
}

proof fn told_without_tokens_if_none(events: Seq<TurnEvent>)
    ensures
        tokens_of(events).len() == 0 ==> text_is_told(events),
{
    if tokens_of(events).len() == 0 {
        told_without_tokens(events);
    }
}

proof fn result_is_counted(events: Seq<TurnEvent>)
    ensures
        last_result(events) is None <==> decoder_runs(events) == 0,
        last_result(events) matches Some(event) ==> event is Token || event is Codes,
    decreases events.len(),
{
    if events.len() > 0 {
        result_is_counted(events.drop_last());
    }
}

/// Whether `start` is a turn before its first event.
spec fn is_start(start: TurnState, config: &LFM25AudioOnnxConfig, seq_len: nat) -> bool {
    ||| start == TurnState::on_text_input(config, true, seq_len)
    ||| start == TurnState::on_text_input(config, false, seq_len)
    ||| start == TurnState::on_audio_input(config, true, seq_len)
    ||| start == TurnState::on_audio_input(config, false, seq_len)
}

proof fn start_follows_its_script(
    start: TurnState,
    config: &LFM25AudioOnnxConfig,
    seq_len: nat,
    events: Seq<TurnEvent>,
)
    requires
        is_start(start, config, seq_len),
        legal(start, events),
    ensures
        run(start, events).kind == start.kind,
        run(start, events).limit == start.limit,
        start.limit <= 512,
        run(start, events).valid(),
        follows_script(run(start, events), seq_len, events),
{
    let limit = start.limit;
    assert(start == TurnState::fresh(config, start.kind, limit, seq_len));
    turn_follows_its_script(config, start.kind, limit, seq_len, events);
    turn_stays_valid(start, events);
    result_is_counted(events);
}

/// What a turn asks for is what it waits for: a decoder run over the positions
/// that stand ready, which reads hidden states where audio is to come and
/// scores where text is; the embedding of the very token or frame that was
/// generated; the text of the tokens; the sound of the frames; and at the end
/// nothing, with the number of items given out.
pub proof fn request_is_for_what_is_waited_for(state: TurnState, request: TurnRequest)
    requires
        turn::asks(state, request),
    ensures
        state.phase == Phase::RunDecoder <==> request is RunDecoder,
        state.phase is EmbedToken <==> request is EmbedToken,
        state.phase is EmbedFrame <==> request is EmbedFrame,
        state.phase == Phase::FlushText || state.phase == Phase::LastText <==> request
            == TurnRequest::DecodeText,
        state.phase is Detokenize || state.phase == Phase::LastAudio <==> request
            == TurnRequest::Detokenize,
        state.phase == Phase::Finished <==> request is Finished,
        match request {
            TurnRequest::RunDecoder { seq_len, readout } => {
                &&& seq_len == state.seq_len
                &&& state.in_audio ==> readout == DecoderReadout::HiddenStates
                &&& !state.in_audio ==> readout == DecoderReadout::Logits
            },
            TurnRequest::EmbedToken(token) => state.phase == Phase::EmbedToken(token),
            TurnRequest::EmbedFrame(frame) => state.phase == Phase::EmbedFrame(frame@),
            TurnRequest::Finished(count) => count == state.emitted,
            _ => true,
        },
{
}

/// A decoder run reads exactly the positions that were embedded last: those of
/// the prompt before the first result, and a single one after every later
/// result, whether a token or a frame was embedded for it. In every run but the
/// first the last result was embedded once.
pub proof fn decoder_reads_what_was_embedded_last(
    config: &LFM25AudioOnnxConfig,
    speech_only: bool,
    interleaved: bool,
    prompt_len: nat,
    events: Seq<TurnEvent>,
    asked: usize,
    readout: DecoderReadout,
)
    ensures
        ({
            let start = TurnState::on_text_input(config, speech_only, prompt_len);
            legal(start, events) && turn::asks(
                run(start, events),
                TurnRequest::RunDecoder { seq_len: asked, readout },
            ) ==> {
                &&& asked == if decoder_runs(events) == 0 {
                    prompt_len
                } else {
                    1
                }
                &&& embeddings(events) == decoder_runs(events)
            }
        }),
        ({
            let start = TurnState::on_audio_input(config, interleaved, prompt_len);
            legal(start, events) && turn::asks(
                run(start, events),
                TurnRequest::RunDecoder { seq_len: asked, readout },
            ) ==> {
                &&& asked == if decoder_runs(events) == 0 {
                    prompt_len
                } else {
                    1
                }
                &&& embeddings(events) == decoder_runs(events)
            }
        }),
{
    let on_text = TurnState::on_text_input(config, speech_only, prompt_len);
    let on_audio = TurnState::on_audio_input(config, interleaved, prompt_len);
    result_is_counted(events);
    if legal(on_text, events) {
        start_follows_its_script(on_text, config, prompt_len, events);
    }
    if legal(on_audio, events) {
        start_follows_its_script(on_audio, config, prompt_len, events);
    }
}

/// Every state that a turn comes to reads the prompt before the first result of
/// the decoder, and one position after any later one.
pub proof fn waiting_decoder_reads_one_position(
    config: &LFM25AudioOnnxConfig,
    speech_only: bool,
    interleaved: bool,
    prompt_len: nat,
    events: Seq<TurnEvent>,
)
    ensures
        ({
            let start = TurnState::on_text_input(config, speech_only, prompt_len);
            let state = run(start, events);
            legal(start, events) && state.phase == Phase::RunDecoder ==> state.seq_len
                == if decoder_runs(events) == 0 {
                prompt_len
            } else {
                1
            }
        }),
        ({
            let start = TurnState::on_audio_input(config, interleaved, prompt_len);
            let state = run(start, events);
            legal(start, events) && state.phase == Phase::RunDecoder ==> state.seq_len
                == if decoder_runs(events) == 0 {
                prompt_len
            } else {
                1
            }
        }),
{
    let on_text = TurnState::on_text_input(config, speech_only, prompt_len);
    let on_audio = TurnState::on_audio_input(config, interleaved, prompt_len);
    result_is_counted(events);
    if legal(on_text, events) {
        start_follows_its_script(on_text, config, prompt_len, events);
    }
    if legal(on_audio, events) {
        start_follows_its_script(on_audio, config, prompt_len, events);
    }
}

/// A turn on text generates tokens until one of the two markers, 128 and 130,
/// and frames from there on: a decoder run yields a frame after a marker and
/// after a frame, and a token at the beginning and after any other token. At a
/// marker, and at no other token, the text is told as soon as the token is
/// embedded.
pub proof fn text_turn_speaks_from_the_marker_on(
    config: &LFM25AudioOnnxConfig,
    speech_only: bool,
    seq_len: nat,
    events: Seq<TurnEvent>,
)
    requires
        legal(TurnState::on_text_input(config, speech_only, seq_len), events),
    ensures
        ({
            let state = run(TurnState::on_text_input(config, speech_only, seq_len), events);
            &&& state.phase == Phase::RunDecoder ==> match last_result(events) {
                None => !state.in_audio,
                Some(TurnEvent::Token(token)) => state.in_audio <==> (token == 128 || token == 130),
                _ => state.in_audio,
            }
            &&& events.len() > 0 && events.last() is Embedded ==> match last_result(events) {
                Some(TurnEvent::Token(token)) => state.phase == Phase::FlushText <==> (token == 128
                    || token == 130),
                _ => state.phase != Phase::FlushText,
            }
            &&& state.phase == Phase::FlushText ==> events.len() > 0 && events.last() is Embedded
        }),
{
    let start = TurnState::on_text_input(config, speech_only, seq_len);
    start_follows_its_script(start, config, seq_len, events);
    if events.len() > 0 {
        start_follows_its_script(start, config, seq_len, events.drop_last());
    }
    result_is_counted(events);
}

/// An interleaved turn goes over to audio when six tokens stand in a row, from
/// the end of the text (token 130) on after every token, and, with the
/// audio-first setting, after the very first token; it goes back to text after
/// a frame whose first code is 2048, and when twelve frames stand in a row
/// before the end of the text. It changes sides nowhere else, and tells its
/// text just when it goes over to audio.
pub proof fn interleaved_turn_changes_sides(
    config: &LFM25AudioOnnxConfig,
    seq_len: nat,
    events: Seq<TurnEvent>,
)
    requires
        legal(TurnState::on_audio_input(config, true, seq_len), events),
    ensures
        ({
            let state = run(TurnState::on_audio_input(config, true, seq_len), events);
            let goes_over = token_run(events) == 6 || was_generated(events, 130) || (
            config.audio_first_interleaved && decoder_runs(events) == 1);
            &&& state.phase == Phase::RunDecoder ==> match last_result(events) {
                None => !state.in_audio,
                Some(TurnEvent::Token(token)) => state.in_audio <==> goes_over,
                Some(TurnEvent::Codes(sampled)) => state.in_audio <==> (sampled[0] != 2048 && (
                frame_run(events) != 12 || was_generated(events, 130))),
                _ => false,
            }
            &&& events.len() > 0 && events.last() is Embedded ==> match last_result(events) {
                Some(TurnEvent::Token(token)) => state.phase == Phase::FlushText <==> goes_over,
                _ => state.phase != Phase::FlushText,
            }
            &&& state.phase == Phase::FlushText ==> events.len() > 0 && events.last() is Embedded
        }),
{
    let start = TurnState::on_audio_input(config, true, seq_len);
    start_follows_its_script(start, config, seq_len, events);
    if events.len() > 0 {
        start_follows_its_script(start, config, seq_len, events.drop_last());
    }
    result_is_counted(events);
}

/// A turn on audio that is not interleaved generates tokens alone, and tells
/// its text at the end.
pub proof fn transcription_never_speaks(
    config: &LFM25AudioOnnxConfig,
    seq_len: nat,
    events: Seq<TurnEvent>,
)
    requires
        legal(TurnState::on_audio_input(config, false, seq_len), events),
    ensures
        ({
            let state = run(TurnState::on_audio_input(config, false, seq_len), events);
            &&& !state.in_audio
            &&& state.phase != Phase::FlushText
            &&& !(state.phase is Detokenize)
            &&& !(state.phase is EmbedFrame)
            &&& state.phase != Phase::LastAudio
        }),
{
    let start = TurnState::on_audio_input(config, false, seq_len);
    start_follows_its_script(start, config, seq_len, events);
    result_is_counted(events);
}

/// What the decoder yields is fed back to it: a token as it is, and a frame with
/// its codes brought down to 2047; for a frame that ends audio, one that holds
/// 2048 in every codebook.
pub proof fn results_are_fed_back(
    config: &LFM25AudioOnnxConfig,
    speech_only: bool,
    interleaved: bool,
    seq_len: nat,
    start: TurnState,
    events: Seq<TurnEvent>,
)
    requires
        start == TurnState::on_text_input(config, speech_only, seq_len) || start
            == TurnState::on_audio_input(config, interleaved, seq_len),
        legal(start, events),
    ensures
        match run(start, events).phase {
            Phase::EmbedToken(token) => {
                &&& token != 7
                &&& last_result(events) == Some(TurnEvent::Token(token))
            },
            Phase::EmbedFrame(frame) => {
                &&& last_result(events) matches Some(TurnEvent::Codes(sampled))
                &&& frame.len() == 8
                &&& sampled[0] == 2048 ==> forall|b: int|
                    0 <= b < 8 ==> #[trigger] frame[b] == 2048
                &&& sampled[0] != 2048 ==> forall|b: int|
                    0 <= b < 8 ==> #[trigger] frame[b] == if sampled[b] > 2047 {
                        2047
                    } else {
                        sampled[b]
                    }
            },
            _ => true,
        },
        events.len() > 0 ==> match events.last() {
            TurnEvent::Token(token) => token != 7 ==> run(start, events).phase
                == Phase::EmbedToken(token),
            TurnEvent::Codes(sampled) => start.kind is Audio || sampled[0] != 2048 ==> run(
                start,
                events,
            ).phase is EmbedFrame || run(start, events).phase is Detokenize,
            TurnEvent::Waveform(len) => run(start, events).phase is EmbedFrame || run(
                start,
                events,
            ).phase == Phase::Finished,
            _ => true,
        },
{
    start_follows_its_script(start, config, seq_len, events);
    if events.len() > 0 {
        start_follows_its_script(start, config, seq_len, events.drop_last());
    }
    if run(start, events).phase is EmbedFrame {
        let sampled = last_result(events)->0->Codes_0;
        assert(run(start, events).phase == Phase::EmbedFrame(fed_back(sampled)));
    }
}

/// A turn goes on until it has a reason to stop: token 7, in a turn on text a
/// frame whose first code is 2048, or as many decoder runs as configured, but
/// no more than 512 on text and 256 on audio. Where it has one, the decoder is
/// not run again.
pub proof fn turn_stops_for_a_reason(
    config: &LFM25AudioOnnxConfig,
    speech_only: bool,
    interleaved: bool,
    seq_len: nat,
    events: Seq<TurnEvent>,
)
    ensures
        ({
            let start = TurnState::on_text_input(config, speech_only, seq_len);
            let state = run(start, events);
            let over = state.phase == Phase::LastText || state.phase == Phase::LastAudio
                || state.phase == Phase::Finished;
            let ends = match last_result(events) {
                Some(TurnEvent::Token(token)) => token == 7,
                Some(TurnEvent::Codes(sampled)) => sampled[0] == 2048,
                _ => false,
            };
            let most = if config.max_new_tokens < 512 {
                config.max_new_tokens as int
            } else {
                512
            };
            legal(start, events) ==> {
                &&& over ==> ends || decoder_runs(events) == most
                &&& ends ==> over
                &&& state.phase == Phase::RunDecoder ==> decoder_runs(events) < most
                &&& decoder_runs(events) <= most
            }
        }),
        ({
            let start = TurnState::on_audio_input(config, interleaved, seq_len);
            let state = run(start, events);
            let over = state.phase == Phase::LastText || state.phase == Phase::LastAudio
                || state.phase == Phase::Finished;
            let ends = last_result(events) == Some(TurnEvent::Token(7));
            let most = if config.max_new_tokens < 256 {
                config.max_new_tokens as int
            } else {
                256
            };
            legal(start, events) ==> {
                &&& over ==> ends || decoder_runs(events) == most
                &&& ends ==> over
                &&& state.phase == Phase::RunDecoder ==> decoder_runs(events) < most
                &&& decoder_runs(events) <= most
            }
        }),
{
    let on_text = TurnState::on_text_input(config, speech_only, seq_len);
    let on_audio = TurnState::on_audio_input(config, interleaved, seq_len);
    if legal(on_text, events) {
        start_follows_its_script(on_text, config, seq_len, events);
    }
    if legal(on_audio, events) {
        start_follows_its_script(on_audio, config, seq_len, events);
    }
}

/// The text that is told is that of all tokens of the turn, in their order, but
/// for the one that ends it; and no turn comes to its end before every token is
/// told.
pub proof fn every_token_is_told(
    config: &LFM25AudioOnnxConfig,
    speech_only: bool,
    interleaved: bool,
    seq_len: nat,
    start: TurnState,
    events: Seq<TurnEvent>,
)
    requires
        start == TurnState::on_text_input(config, speech_only, seq_len) || start
            == TurnState::on_audio_input(config, interleaved, seq_len),
        legal(start, events),
    ensures
        run(start, events).generated == tokens_of(events),
        run(start, events).phase == Phase::Finished ==> text_is_told(events),
{
    start_follows_its_script(start, config, seq_len, events);
}

/// A text is given out unless it is nothing but white space or the turn is for
/// speech alone; a chunk of sound is given out always, with the frames that
/// wait for it; nothing else is given out.
pub proof fn items_are_given_out_as_they_come(
    config: &LFM25AudioOnnxConfig,
    speech_only: bool,
    interleaved: bool,
    seq_len: nat,
    start: TurnState,
    events: Seq<TurnEvent>,
    event: TurnEvent,
)
    requires
        start == TurnState::on_text_input(config, speech_only, seq_len) || (start
            == TurnState::on_audio_input(config, interleaved, seq_len) && !speech_only),
        legal(start, events.push(event)),
    ensures
        ({
            let before = outputs(start, events);
            let after = outputs(start, events.push(event));
            match event {
                TurnEvent::Text(words) => {
                    let blank = forall|i: int|
                        0 <= i < words.len() ==> text::is_white(#[trigger] words[i]);
                    after == if blank || speech_only {
                        before
                    } else {
                        before.push(TurnOutput::Text(words))
                    }
                },
                TurnEvent::Waveform(len) => {
                    &&& after.len() == before.len() + 1
                    &&& after.take(before.len() as int) == before
                    &&& after.last() is Audio
                    &&& after.last()->len == len
                    &&& after.last()->frames == run(start, events).batch
                },
                _ => after == before,
            }
        }),
{
    let all = events.push(event);
    assert(all.drop_last() =~= events);
    let before = outputs(start, events);
    let after = outputs(start, all);
    assert(legal(start, events));
    start_follows_its_script(start, config, seq_len, events);
    let state = run(start, events);
    let given = given_out(state, event);
    assert(after == before + given);
    match event {
        TurnEvent::Text(words) => {
            if state.gives_out(words) {
                assert(after =~= before.push(TurnOutput::Text(words)));
            } else {
                assert(after =~= before);
            }
        },
        TurnEvent::Waveform(len) => {
            assert(after.take(before.len() as int) =~= before);
        },
        _ => {
            assert(after =~= before);
        },
    }
}

/// A turn takes its settings from the configuration: the first chunk of audio
/// takes as many frames as configured for it, or else as every chunk, the later
/// ones as configured, and the sample rate is that of the output. It begins
/// with nothing generated and nothing given out.
pub proof fn turn_takes_its_settings(
    config: &LFM25AudioOnnxConfig,
    speech_only: bool,
    interleaved: bool,
    seq_len: nat,
    start: TurnState,
)
    requires
        start == TurnState::on_text_input(config, speech_only, seq_len) || start
            == TurnState::on_audio_input(config, interleaved, seq_len),
    ensures
        config.first_chunk_audio_batch_size matches Some(frames) ==> start.first_chunk == frames,
        config.first_chunk_audio_batch_size is None ==> start.first_chunk
            == config.audio_batch_size,
        start.chunk == config.audio_batch_size,
        start.rate == config.output_sample_rate,
        start.valid(),
        !start.started,
        start.emitted == 0,
        start.samples == 0,
        start.batch.len() == 0,
        start.generated.len() == 0,
        config.max_new_tokens > 0 ==> start.phase == Phase::RunDecoder && start.seq_len == seq_len
            && !start.in_audio,
        config.max_new_tokens == 0 ==> start.phase == Phase::Finished,
{
}

/// The number that a turn reports at its end is the number of items that it
/// gave out.
pub proof fn finished_turn_reports_its_items(
    config: &LFM25AudioOnnxConfig,
    speech_only: bool,
    interleaved: bool,
    seq_len: nat,
    start: TurnState,
    events: Seq<TurnEvent>,
    count: usize,
)
    requires
        start == TurnState::on_text_input(config, speech_only, seq_len) || start
            == TurnState::on_audio_input(config, interleaved, seq_len),
        legal(start, events),
        turn::asks(run(start, events), TurnRequest::Finished(count)),
    ensures
        count == outputs(start, events).len(),
{
    turn_takes_its_settings(config, speech_only, interleaved, seq_len, start);
    turn_counts_what_it_gives_out(start, events);
}

/// A chunk of sound is asked for as soon as as many frames wait as configured,
/// and not before: right after a frame, where the frames that wait are that
/// many, and at the end of the turn, where any are left.
pub proof fn chunks_are_asked_for_when_full(
    config: &LFM25AudioOnnxConfig,
    speech_only: bool,
    interleaved: bool,
    seq_len: nat,
    start: TurnState,
    events: Seq<TurnEvent>,
)
    requires
        start == TurnState::on_text_input(config, speech_only, seq_len) || start
            == TurnState::on_audio_input(config, interleaved, seq_len),
        legal(start, events),
        events.len() > 0,
        events.last() is Codes,
        run(start, events).phase is Detokenize || run(start, events).phase is EmbedFrame,
    ensures
        ({
            let state = run(start, events);
            let given = outputs(start, events);
            let size = if has_audio(given) {
                config.audio_batch_size as nat
            } else {
                match config.first_chunk_audio_batch_size {
                    Some(frames) => frames as nat,
                    None => config.audio_batch_size as nat,
                }
            };
            state.phase is Detokenize <==> state.batch.len() >= size
        }),
{
    let earlier = events.drop_last();
    start_follows_its_script(start, config, seq_len, earlier);
    turn_takes_its_settings(config, speech_only, interleaved, seq_len, start);
    started_with_audio(start, earlier);
    turn_stays_valid(start, events);
    assert(outputs(start, events) =~= outputs(start, earlier));
}

proof fn started_with_audio(start: TurnState, events: Seq<TurnEvent>)
    requires
        start.valid(),
        !start.started,
        legal(start, events),
    ensures
        run(start, events).phase != Phase::Finished ==> run(start, events).started == has_audio(
            outputs(start, events),
        ),
    decreases events.len(),
{
    if events.len() > 0 {
        let earlier = events.drop_last();
        started_with_audio(start, earlier);
        turn_stays_valid(start, earlier);
        let before = outputs(start, earlier);
        let all = outputs(start, events);
        let given = given_out(run(start, earlier), events.last());
        assert(given.len() == 0 ==> all =~= before);
        if events.last() is Waveform {
            assert(all[all.len() - 1] is Audio);
        }
        if has_audio(before) {
            let i = choose|i: int| 0 <= i < before.len() && (#[trigger] before[i]) is Audio;
            assert(all[i] == before[i]);
        }
        if has_audio(all) && !(events.last() is Waveform) {
            let i = choose|i: int| 0 <= i < all.len() && (#[trigger] all[i]) is Audio;
            assert(i < before.len());
            assert(before[i] == all[i]);
        }
    }
}

/// A chunk of audio is stamped with the configured sample rate, one channel, and
/// the time that the samples given out before it take.
pub proof fn stamps_tell_the_time_before(
    config: &LFM25AudioOnnxConfig,
    speech_only: bool,
    interleaved: bool,
    seq_len: nat,
    start: TurnState,
    events: Seq<TurnEvent>,
    stamp: AudioStamp,
)
    requires
        start == TurnState::on_text_input(config, speech_only, seq_len) || start
            == TurnState::on_audio_input(config, interleaved, seq_len),
        legal(start, events),
        run(start, events).phase is Detokenize || run(start, events).phase == Phase::LastAudio,
        turn::is_stamp(run(start, events), stamp),
    ensures
        stamp.sample_rate == config.output_sample_rate,
        stamp.channels == 1,
        config.output_sample_rate > 0 ==> {
            let samples = samples_given_out(outputs(start, events));
            stamp.pts_us * config.output_sample_rate <= samples * 1_000_000 < (stamp.pts_us + 1)
                * config.output_sample_rate
        },
{
    start_follows_its_script(start, config, seq_len, events);
    stamps_follow_samples(start, events);
    turn_keeps_its_rate(start, events);
    if config.output_sample_rate > 0 {
        let rate = config.output_sample_rate as int;
        let time = (samples_given_out(outputs(start, events)) * 1_000_000) as int;
        let q = time / rate;
        vstd::arithmetic::div_mod::lemma_fundamental_div_mod(time, rate);
        vstd::arithmetic::div_mod::lemma_mod_bound(time, rate);
        assert(q * rate <= time < (q + 1) * rate) by (nonlinear_arith)
            requires
                time == rate * q + time % rate,
                0 <= time % rate < rate,
        ;
    }
}

proof fn turn_keeps_its_rate(start: TurnState, events: Seq<TurnEvent>)
    requires
        legal(start, events),
    ensures
        run(start, events).rate == start.rate,
    decreases events.len(),
{
    if events.len() > 0 {
        turn_keeps_its_rate(start, events.drop_last());
    }
}

/// A text is handed back exactly when it is not white space throughout and the
/// turn is not for speech alone, and as it was read; where it could not be read
/// the turn is as before, and the error gives the reason.
pub proof fn text_is_handed_back_unless_blank(
    speech_only: bool,
    state: TurnState,
    wording: Result<Seq<char>, Seq<char>>,
    after: TurnState,
    text: Result<Option<String>, NodeError>,
)
    requires
        turn::hands_back(state, wording, after, text),
        state.kind == (TurnKind::Text { speech_only }) || (state.kind is Audio && !speech_only),
    ensures
        text is Ok <==> wording is Ok,
        wording matches Ok(decoded) ==> {
            let blank = forall|i: int|
                0 <= i < decoded.len() ==> text::is_white(#[trigger] decoded[i]);
            &&& text->Ok_0 is Some <==> !blank && !speech_only
            &&& text->Ok_0 is Some ==> text->Ok_0->0@ == decoded
            &&& after.emitted == state.emitted + if blank || speech_only {
                0int
            } else {
                1
            }
            &&& after.generated == state.generated
            &&& after.batch == state.batch
        },
        wording matches Err(reason) ==> {
            &&& after == state
            &&& text->Err_0 matches NodeError::Decoding(why)
            &&& why@ == reason
        },
{
}

} // verus!
