//! One turn of generation, as a machine that asks for a piece of outside work
//! and is told its result.

use crate::codes::{self, Frame};
use crate::config::LFM25AudioOnnxConfig;
use crate::error::NodeError;
use crate::text;
use crate::tokenizer::{self, CheckedTokenizer};
use vstd::prelude::*;

pub mod laws;
pub mod model;

pub use crate::turn::model::{Phase, TurnKind, TurnState};
use crate::turn::model::{
    AUDIO_START_TOKEN, AUDIO_TURN_STEPS, IM_END_TOKEN, INTERLEAVED_AUDIO_RUN, INTERLEAVED_TEXT_RUN,
    TEXT_END_TOKEN, TEXT_TURN_STEPS,
};

verus! {

/// What is read out of a decoder run.
#[derive(Debug, Clone, Copy, PartialEq, Eq, Structural)]
pub enum DecoderReadout {
    Logits,
    HiddenStates,
}

/// What a turn is waiting for.
#[derive(Debug, Clone, Copy)]
enum Waiting {
    RunDecoder,
    EmbedToken(u32),
    FlushText,
    Detokenize(Frame),
    EmbedFrame(Frame),
    LastText,
    LastAudio,
    Finished,
}

impl View for Waiting {
    type V = Phase;

    closed spec fn view(&self) -> Phase {
        match *self {
            Waiting::RunDecoder => Phase::RunDecoder,
            Waiting::EmbedToken(token) => Phase::EmbedToken(token),
            Waiting::FlushText => Phase::FlushText,
            Waiting::Detokenize(frame) => Phase::Detokenize(frame@),
            Waiting::EmbedFrame(frame) => Phase::EmbedFrame(frame@),
            Waiting::LastText => Phase::LastText,
            Waiting::LastAudio => Phase::LastAudio,
            Waiting::Finished => Phase::Finished,
        }
    }
}

/// A piece of outside work.
#[derive(Debug, Clone, Copy)]
pub enum TurnRequest {
    /// Run the decoder over `seq_len` embedded positions. With
    /// [`DecoderReadout::Logits`] the result goes to [`Turn::on_token`], with
    /// [`DecoderReadout::HiddenStates`] it goes through the depthformer and
    /// then to [`Turn::on_codes`].
    RunDecoder { seq_len: usize, readout: DecoderReadout },
    /// Embed a token, then call [`Turn::on_embedded`].
    EmbedToken(u32),
    /// Turn [`Turn::generated`] into text: see [`Turn::flush_text`].
    DecodeText,
    /// Turn [`Turn::batch`] into sound, then call [`Turn::on_waveform`].
    Detokenize,
    /// Embed a frame, then call [`Turn::on_embedded`].
    EmbedFrame(Frame),
    /// The turn is over, with this many items given out.
    Finished(usize),
}

/// What goes with a chunk of audio.
#[derive(Debug, Clone, Copy, PartialEq, Eq, Structural)]
pub struct AudioStamp {
    pub sample_rate: u32,
    pub channels: u32,
    pub pts_us: u64,
}

/// One turn of generation.
#[derive(Debug)]
pub struct Turn {
    kind: TurnKind,
    limit: usize,
    first_chunk: usize,
    chunk: usize,
    rate: u32,
    steps: usize,
    seq_len: usize,
    in_audio: bool,
    modality_left: usize,
    text_done: bool,
    generated: Vec<u32>,
    batch: Vec<Frame>,
    started: bool,
    samples: usize,
    emitted: usize,
    waiting: Waiting,
}

impl View for Turn {
    type V = TurnState;

    closed spec fn view(&self) -> TurnState {
        TurnState {
            kind: self.kind,
            limit: self.limit as nat,
            first_chunk: self.first_chunk as nat,
            chunk: self.chunk as nat,
            rate: self.rate as nat,
            steps: self.steps as nat,
            seq_len: self.seq_len as nat,
            in_audio: self.in_audio,
            modality_left: self.modality_left as nat,
            text_done: self.text_done,
            generated: self.generated@,
            batch: codes::frame_views(self.batch@),
            started: self.started,
            samples: self.samples as nat,
            emitted: self.emitted as nat,
            phase: self.waiting@,
        }
    }
}

/// Whether `request` is what a turn in `state` waits for.
pub open spec fn asks(state: TurnState, request: TurnRequest) -> bool {
    match request {
        TurnRequest::RunDecoder { seq_len, readout } => {
            &&& state.phase == Phase::RunDecoder
            &&& seq_len == state.seq_len
            &&& readout == if state.in_audio {
                DecoderReadout::HiddenStates
            } else {
                DecoderReadout::Logits
            }
        },
        TurnRequest::EmbedToken(token) => state.phase == Phase::EmbedToken(token),
        TurnRequest::DecodeText => state.phase == Phase::FlushText || state.phase
            == Phase::LastText,
        TurnRequest::Detokenize => state.phase is Detokenize || state.phase == Phase::LastAudio,
        TurnRequest::EmbedFrame(frame) => state.phase == Phase::EmbedFrame(frame@),
        TurnRequest::Finished(emitted) => state.phase == Phase::Finished && emitted
            == state.emitted,
    }
}

/// Whether `stamp` goes with the next chunk of audio of a turn in `state`.
pub open spec fn is_stamp(state: TurnState, stamp: AudioStamp) -> bool {
    &&& stamp.sample_rate == state.rate
    &&& stamp.channels == 1
    &&& stamp.pts_us == state.pts_us()
}

/// Whether `text` is what is handed back of the text `wording` by a turn in
/// `state`, which is then in the state `after`.
pub open spec fn hands_back(
    state: TurnState,
    wording: Result<Seq<char>, Seq<char>>,
    after: TurnState,
    text: Result<Option<String>, NodeError>,
) -> bool {
    match wording {
        Ok(decoded) => {
            &&& after == state.after_text(decoded)
            &&& !state.gives_out(decoded) ==> text == Ok::<Option<String>, NodeError>(None)
            &&& state.gives_out(decoded) ==> (text matches Ok(Some(string)) && string@ == decoded)
        },
        Err(reason) => {
            &&& after == state
            &&& text matches Err(NodeError::Decoding(why))
            &&& why@ == reason
        },
    }
}

impl Turn {
    fn fresh(config: &LFM25AudioOnnxConfig, kind: TurnKind, limit: usize, seq_len: usize) -> (turn:
        Turn)
        requires
            limit <= TEXT_TURN_STEPS,
        ensures
            turn@ == TurnState::fresh(config, kind, limit as nat, seq_len as nat),
            turn@.valid(),
    {
        let first_chunk: usize = match config.first_chunk_audio_batch_size {
            Some(frames) => frames,
            None => config.audio_batch_size,
        };
        let mut turn = Turn {
            kind,
            limit,
            first_chunk,
            chunk: config.audio_batch_size,
            rate: config.output_sample_rate,
            steps: 0,
            seq_len,
            in_audio: false,
            modality_left: INTERLEAVED_TEXT_RUN,
            text_done: false,
            generated: Vec::new(),
            batch: Vec::new(),
            started: false,
            samples: 0,
            emitted: 0,
            waiting: Waiting::Finished,
        };
        assert(turn@.batch =~= Seq::<Seq<i64>>::empty());
        turn.advance();
        turn
    }

    /// A turn on text whose prompt takes `seq_len` positions. Where speech
    /// alone is asked for, its text is not given out.
    pub fn for_text(config: &LFM25AudioOnnxConfig, speech_only: bool, seq_len: usize) -> (turn:
        Turn)
        ensures
            turn@ == TurnState::on_text_input(config, speech_only, seq_len as nat),
            turn@.valid(),
    {
        let limit: usize = if config.max_new_tokens < TEXT_TURN_STEPS {
            config.max_new_tokens
        } else {
            TEXT_TURN_STEPS
        };
        Self::fresh(config, TurnKind::Text { speech_only }, limit, seq_len)
    }

    /// A turn on audio whose audio and prompt take `seq_len` positions.
    pub fn for_audio(config: &LFM25AudioOnnxConfig, interleaved: bool, seq_len: usize) -> (turn:
        Turn)
        ensures
            turn@ == TurnState::on_audio_input(config, interleaved, seq_len as nat),
            turn@.valid(),
    {
        let limit: usize = if config.max_new_tokens < AUDIO_TURN_STEPS {
            config.max_new_tokens
        } else {
            AUDIO_TURN_STEPS
        };
        let kind = TurnKind::Audio { interleaved, audio_first: config.audio_first_interleaved };
        Self::fresh(config, kind, limit, seq_len)
    }

    fn interleaves(&self) -> (interleaves: bool)
        ensures
            interleaves == self@.interleaves(),
    {
        match self.kind {
            TurnKind::Text { speech_only: _ } => false,
            TurnKind::Audio { interleaved, audio_first: _ } => interleaved,
        }
    }

    fn speech_only(&self) -> (speech_only: bool)
        ensures
            speech_only == self@.speech_only(),
    {
        match self.kind {
            TurnKind::Text { speech_only } => speech_only,
            TurnKind::Audio { interleaved: _, audio_first: _ } => false,
        }
    }

    fn advance(&mut self)
        ensures
            final(self)@ == old(self)@.advance(),
    {
        if self.steps < self.limit {
            self.waiting = Waiting::RunDecoder;
        } else {
            self.wrap_up();
        }
    }

    fn wrap_up(&mut self)
        ensures
            final(self)@ == old(self)@.wrap_up(),
    {
        if !self.in_audio && self.generated.len() > 0 {
            self.waiting = Waiting::LastText;
        } else {
            self.wrap_up_audio();
        }
    }

    fn wrap_up_audio(&mut self)
        ensures
            final(self)@ == old(self)@.wrap_up_audio(),
    {
        if self.batch.len() > 0 {
            self.waiting = Waiting::LastAudio;
        } else {
            self.waiting = Waiting::Finished;
        }
    }

    fn count_step(&mut self)
        requires
            old(self)@.steps < TEXT_TURN_STEPS,
        ensures
            final(self)@ == old(self)@.counted(),
    {
        self.steps = self.steps + 1;
        if self.interleaves() && self.modality_left > 0 {
            self.modality_left = self.modality_left - 1;
        }
    }

    fn await_frame(&mut self, frame: Frame)
        ensures
            final(self)@ == old(self)@.with_frame(frame@),
    {
        let threshold: usize = if self.started {
            self.chunk
        } else {
            self.first_chunk
        };
        if self.batch.len() >= threshold {
            self.waiting = Waiting::Detokenize(frame);
        } else {
            self.waiting = Waiting::EmbedFrame(frame);
        }
    }

    fn keep_frame(&mut self, frame: Frame)
        ensures
            final(self)@ == (TurnState { batch: old(self)@.batch.push(frame@), ..old(self)@ }),
    {
        let ghost before = self.batch@;
        self.batch.push(frame);
        assert(codes::frame_views(self.batch@) =~= codes::frame_views(before).push(frame@));
    }

    /// The outside work that is due.
    pub fn request(&self) -> (request: TurnRequest)
        ensures
            asks(self@, request),
    {
        match self.waiting {
            Waiting::RunDecoder => TurnRequest::RunDecoder {
                seq_len: self.seq_len,
                readout: if self.in_audio {
                    DecoderReadout::HiddenStates
                } else {
                    DecoderReadout::Logits
                },
            },
            Waiting::EmbedToken(token) => TurnRequest::EmbedToken(token),
            Waiting::FlushText => TurnRequest::DecodeText,
            Waiting::Detokenize(_) => TurnRequest::Detokenize,
            Waiting::EmbedFrame(frame) => TurnRequest::EmbedFrame(frame),
            Waiting::LastText => TurnRequest::DecodeText,
            Waiting::LastAudio => TurnRequest::Detokenize,
            Waiting::Finished => TurnRequest::Finished(self.emitted),
        }
    }

    /// The tokens generated so far.
    pub fn generated(&self) -> (tokens: &Vec<u32>)
        ensures
            tokens@ == self@.generated,
    {
        &self.generated
    }

    /// The frames that wait to be turned into sound.
    pub fn batch(&self) -> (frames: &Vec<Frame>)
        ensures
            codes::frame_views(frames@) == self@.batch,
    {
        &self.batch
    }

    /// The number of samples in the chunks given out.
    pub fn samples(&self) -> (samples: usize)
        ensures
            samples == self@.samples,
    {
        self.samples
    }

    /// The decoder yielded a token.
    pub fn on_token(&mut self, token: u32)
        requires
            old(self)@.valid(),
            old(self)@.phase == Phase::RunDecoder,
            !old(self)@.in_audio,
        ensures
            final(self)@ == old(self)@.after_token(token),
            final(self)@.valid(),
    {
        self.count_step();
        if token == IM_END_TOKEN {
            self.wrap_up();
        } else {
            self.generated.push(token);
            self.waiting = Waiting::EmbedToken(token);
        }
    }

    /// The depthformer yielded a frame.
    pub fn on_codes(&mut self, sampled: &Frame)
        requires
            old(self)@.valid(),
            old(self)@.phase == Phase::RunDecoder,
            old(self)@.in_audio,
        ensures
            final(self)@ == old(self)@.after_codes(sampled@),
            final(self)@.valid(),
    {
        self.count_step();
        let ends: bool = sampled[0] == codes::END_OF_AUDIO_TOKEN;
        let sound = codes::clamp_frame(sampled);
        match self.kind {
            TurnKind::Text { speech_only: _ } => {
                if ends {
                    self.wrap_up();
                } else {
                    self.keep_frame(sound);
                    self.await_frame(sound);
                }
            },
            TurnKind::Audio { interleaved, audio_first: _ } => {
                if interleaved && (ends || (self.modality_left == 0 && !self.text_done)) {
                    self.in_audio = false;
                    self.modality_left = INTERLEAVED_TEXT_RUN;
                }
                if ends {
                    self.await_frame(codes::end_of_audio_frame());
                } else {
                    self.keep_frame(sound);
                    self.await_frame(sound);
                }
            },
        }
    }

    /// The token or frame that was asked for is embedded.
    pub fn on_embedded(&mut self)
        requires
            old(self)@.valid(),
            old(self)@.phase is EmbedToken || old(self)@.phase is EmbedFrame,
        ensures
            final(self)@ == old(self)@.after_embedding(),
            final(self)@.valid(),
    {
        self.seq_len = 1;
        if let Waiting::EmbedToken(token) = self.waiting {
            if self.interleaves() && token == TEXT_END_TOKEN {
                self.text_done = true;
            }
            let to_audio: bool = match self.kind {
                TurnKind::Text { speech_only: _ } => token == AUDIO_START_TOKEN || token == TEXT_END_TOKEN,
                TurnKind::Audio { interleaved, audio_first } => interleaved && (self.modality_left
                    == 0 || self.text_done || (audio_first && self.steps == 1)),
            };
            if to_audio {
                self.waiting = Waiting::FlushText;
                return ;
            }
        }
        self.advance();
    }

    /// The tokens were turned into `text`. Tells whether it is to be given
    /// out, which is the case unless it is blank or the turn is for speech
    /// alone.
    pub fn on_text(&mut self, text: &str) -> (emit: bool)
        requires
            old(self)@.valid(),
            old(self)@.phase == Phase::FlushText || old(self)@.phase == Phase::LastText,
        ensures
            final(self)@ == old(self)@.after_text(text@),
            final(self)@.valid(),
            emit == old(self)@.gives_out(text@),
            emit == (!text::is_blank(text@) && !old(self)@.speech_only()),
    {
        let emit: bool = !text::is_blank_text(text) && !self.speech_only();
        if emit {
            self.emitted = self.emitted + 1;
        }
        if let Waiting::FlushText = self.waiting {
            self.in_audio = true;
            self.modality_left = INTERLEAVED_AUDIO_RUN;
            self.advance();
        } else {
            self.wrap_up_audio();
        }
        emit
    }

    /// Turns the tokens into text and moves on. The text is handed back unless
    /// it is blank or the turn is for speech alone; where the tokenizer fails or
    /// is not called, nothing changes.
    pub fn flush_text(&mut self, tokenizer: &CheckedTokenizer) -> (text: Result<
        Option<String>,
        NodeError,
    >)
        requires
            old(self)@.valid(),
            old(self)@.phase == Phase::FlushText || old(self)@.phase == Phase::LastText,
        ensures
            final(self)@.valid(),
            hands_back(
                old(self)@,
                tokenizer::wording_of(*tokenizer, old(self)@.generated),
                final(self)@,
                text,
            ),
            match tokenizer::wording_of(*tokenizer, old(self)@.generated) {
                Ok(decoded) => {
                    &&& final(self)@ == old(self)@.after_text(decoded)
                    &&& !old(self)@.gives_out(decoded) ==> text == Ok::<Option<String>, NodeError>(
                        None,
                    )
                    &&& old(self)@.gives_out(decoded) ==> (text matches Ok(Some(string)) && string@
                        == decoded)
                },
                Err(reason) => {
                    &&& final(self)@ == old(self)@
                    &&& text matches Err(NodeError::Decoding(why))
                    &&& why@ == reason
                },
            },
    {
        match tokenizer::decode(tokenizer, &self.generated) {
            Ok(decoded) => {
                if self.on_text(decoded.as_str()) {
                    Ok(Some(decoded))
                } else {
                    Ok(None)
                }
            },
            Err(error) => Err(error),
        }
    }

    /// The batch was turned into `len` samples. Says what goes with them when
    /// they are given out.
    pub fn on_waveform(&mut self, len: usize) -> (stamp: AudioStamp)
        requires
            old(self)@.valid(),
            old(self)@.phase is Detokenize || old(self)@.phase == Phase::LastAudio,
            old(self)@.rate > 0,
            old(self)@.samples * 1_000_000 <= u64::MAX,
            old(self)@.phase is Detokenize ==> old(self)@.samples + len <= usize::MAX,
        ensures
            final(self)@ == old(self)@.after_waveform(len as nat),
            final(self)@.valid(),
            is_stamp(old(self)@, stamp),
            stamp.sample_rate == old(self)@.rate,
            stamp.channels == 1,
            stamp.pts_us == old(self)@.pts_us(),
    {
        let pts_us: u64 = (self.samples as u64 * 1_000_000) / self.rate as u64;
        let stamp = AudioStamp { sample_rate: self.rate, channels: 1, pts_us };
        self.emitted = self.emitted + 1;
        self.batch = Vec::new();
        assert(codes::frame_views(self.batch@) =~= Seq::<Seq<i64>>::empty());
        if let Waiting::Detokenize(frame) = self.waiting {
            self.samples = self.samples + len;
            self.started = true;
            self.waiting = Waiting::EmbedFrame(frame);
        } else {
            self.waiting = Waiting::Finished;
        }
        stamp
    }
}

} // verus!
