//! The model of a turn: its state, and what each piece of outside work does
//! to it.

use crate::codes;
use crate::config::LFM25AudioOnnxConfig;
use crate::text;
use vstd::prelude::*;

verus! {

/// The token that ends the assistant's turn.
pub const IM_END_TOKEN: u32 = 7;

/// The token that announces audio.
pub const AUDIO_START_TOKEN: u32 = 128;

/// The token that ends the text.
pub const TEXT_END_TOKEN: u32 = 130;

/// How many audio frames an interleaved turn generates in a row.
pub const INTERLEAVED_AUDIO_RUN: usize = 12;

/// How many text tokens an interleaved turn generates in a row.
pub const INTERLEAVED_TEXT_RUN: usize = 6;

/// Upper bound on the decoder runs of a turn on text.
pub const TEXT_TURN_STEPS: usize = 512;

/// Upper bound on the decoder runs of a turn on audio.
pub const AUDIO_TURN_STEPS: usize = 256;

/// What a turn answers, and by which rules it moves between text and audio.
#[derive(Debug, Clone, Copy, PartialEq, Eq, Structural)]
pub enum TurnKind {
    /// Text input: text until a marker token, then audio to the end. Where
    /// speech alone is asked for, the text is not given out.
    Text { speech_only: bool },
    /// Audio input: text alone, or runs of text and of audio by turns.
    Audio { interleaved: bool, audio_first: bool },
}

/// What a turn is waiting for.
#[verifier::ext_equal]
pub enum Phase {
    /// A run of the decoder.
    RunDecoder,
    /// The embedding of a token.
    EmbedToken(u32),
    /// The text of the tokens so far, before audio begins.
    FlushText,
    /// The sound of the batch; the frame is embedded afterwards.
    Detokenize(Seq<i64>),
    /// The embedding of a frame.
    EmbedFrame(Seq<i64>),
    /// The text of the tokens at the end of the turn.
    LastText,
    /// The sound of the frames left over at the end of the turn.
    LastAudio,
    /// Nothing: the turn is over.
    Finished,
}

/// State of a turn.
#[verifier::ext_equal]
pub struct TurnState {
    pub kind: TurnKind,
    /// Most decoder runs that the turn may take.
    pub limit: nat,
    /// Frames that make up the first chunk of audio.
    pub first_chunk: nat,
    /// Frames that make up every later chunk.
    pub chunk: nat,
    /// Sample rate of the generated audio.
    pub rate: nat,
    /// Decoder runs taken.
    pub steps: nat,
    /// Positions that the next decoder run reads.
    pub seq_len: nat,
    /// Whether the next decoder run yields a frame and not a token.
    pub in_audio: bool,
    /// Decoder runs left before an interleaved turn changes over.
    pub modality_left: nat,
    /// Whether the end of the text was generated.
    pub text_done: bool,
    /// Tokens generated so far.
    pub generated: Seq<u32>,
    /// Frames not yet turned into sound.
    pub batch: Seq<Seq<i64>>,
    /// Whether a chunk of audio was given out.
    pub started: bool,
    /// Samples in the chunks given out.
    pub samples: nat,
    /// Items given out.
    pub emitted: nat,
    pub phase: Phase,
}

/// The smaller of two counts.
pub open spec fn at_most(count: nat, bound: nat) -> nat {
    if count < bound {
        count
    } else {
        bound
    }
}

/// How many frames the first chunk takes.
pub open spec fn first_chunk_of(config: &LFM25AudioOnnxConfig) -> nat {
    match config.first_chunk_audio_batch_size {
        Some(frames) => frames as nat,
        None => config.audio_batch_size as nat,
    }
}

impl TurnState {
    /// A turn on text whose prompt takes `seq_len` positions.
    pub open spec fn on_text_input(
        config: &LFM25AudioOnnxConfig,
        speech_only: bool,
        seq_len: nat,
    ) -> TurnState {
        TurnState::fresh(
            config,
            TurnKind::Text { speech_only },
            at_most(config.max_new_tokens as nat, TEXT_TURN_STEPS as nat),
            seq_len,
        )
    }

    /// A turn on audio whose audio and prompt take `seq_len` positions.
    pub open spec fn on_audio_input(
        config: &LFM25AudioOnnxConfig,
        interleaved: bool,
        seq_len: nat,
    ) -> TurnState {
        TurnState::fresh(
            config,
            TurnKind::Audio { interleaved, audio_first: config.audio_first_interleaved },
            at_most(config.max_new_tokens as nat, AUDIO_TURN_STEPS as nat),
            seq_len,
        )
    }

    /// A turn of `kind` before its first decoder run.
    pub open spec fn fresh(
        config: &LFM25AudioOnnxConfig,
        kind: TurnKind,
        limit: nat,
        seq_len: nat,
    ) -> TurnState {
        TurnState {
            kind,
            limit,
            first_chunk: first_chunk_of(config),
            chunk: config.audio_batch_size as nat,
            rate: config.output_sample_rate as nat,
            steps: 0,
            seq_len,
            in_audio: false,
            modality_left: INTERLEAVED_TEXT_RUN as nat,
            text_done: false,
            generated: Seq::empty(),
            batch: Seq::empty(),
            started: false,
            samples: 0,
            emitted: 0,
            phase: Phase::Finished,
        }.advance()
    }

    /// Whether the turn moves between text and audio by runs.
    pub open spec fn interleaves(self) -> bool {
        match self.kind {
            TurnKind::Text { speech_only } => false,
            TurnKind::Audio { interleaved, audio_first } => interleaved,
        }
    }

    /// Whether the turn keeps its text to itself.
    pub open spec fn speech_only(self) -> bool {
        match self.kind {
            TurnKind::Text { speech_only } => speech_only,
            TurnKind::Audio { interleaved, audio_first } => false,
        }
    }

    /// Whether `text` is given out: it is not blank, and not only speech is
    /// asked for.
    pub open spec fn gives_out(self, text: Seq<char>) -> bool {
        !text::is_blank(text) && !self.speech_only()
    }

    /// How many frames make a chunk now.
    pub open spec fn threshold(self) -> nat {
        if self.started {
            self.chunk
        } else {
            self.first_chunk
        }
    }

    /// When the next chunk of audio begins, in microseconds.
    pub open spec fn pts_us(self) -> nat {
        self.samples * 1_000_000 / self.rate
    }

    /// The next decoder run, or the end where none is left.
    pub open spec fn advance(self) -> TurnState {
        if self.steps < self.limit {
            TurnState { phase: Phase::RunDecoder, ..self }
        } else {
            self.wrap_up()
        }
    }

    /// The end of the generation: text that was not given out, then audio.
    pub open spec fn wrap_up(self) -> TurnState {
        if !self.in_audio && self.generated.len() > 0 {
            TurnState { phase: Phase::LastText, ..self }
        } else {
            self.wrap_up_audio()
        }
    }

    /// The end of the generation, as far as audio is concerned.
    pub open spec fn wrap_up_audio(self) -> TurnState {
        if self.batch.len() > 0 {
            TurnState { phase: Phase::LastAudio, ..self }
        } else {
            TurnState { phase: Phase::Finished, ..self }
        }
    }

    /// A decoder run is counted.
    pub open spec fn counted(self) -> TurnState {
        TurnState {
            steps: self.steps + 1,
            modality_left: if self.interleaves() && self.modality_left > 0 {
                (self.modality_left - 1) as nat
            } else {
                self.modality_left
            },
            ..self
        }
    }

    /// The decoder yielded a token.
    pub open spec fn after_token(self, token: u32) -> TurnState {
        let counted = self.counted();
        if token == IM_END_TOKEN {
            counted.wrap_up()
        } else {
            TurnState {
                generated: counted.generated.push(token),
                phase: Phase::EmbedToken(token),
                ..counted
            }
        }
    }

    /// Whether audio follows, now that `token` is embedded.
    pub open spec fn turns_to_audio(self, token: u32) -> bool {
        match self.kind {
            TurnKind::Text { speech_only } => token == AUDIO_START_TOKEN || token == TEXT_END_TOKEN,
            TurnKind::Audio { interleaved, audio_first } => interleaved && (self.modality_left == 0
                || self.text_done || (audio_first && self.steps == 1)),
        }
    }

    /// The token or frame was embedded.
    pub open spec fn after_embedding(self) -> TurnState {
        match self.phase {
            Phase::EmbedToken(token) => {
                let embedded = TurnState {
                    seq_len: 1,
                    text_done: self.text_done || (self.interleaves() && token == TEXT_END_TOKEN),
                    ..self
                };
                if embedded.turns_to_audio(token) {
                    TurnState { phase: Phase::FlushText, ..embedded }
                } else {
                    embedded.advance()
                }
            },
            _ => TurnState { seq_len: 1, ..self }.advance(),
        }
    }

    /// The tokens were turned into `text`. It counts where it is given out.
    pub open spec fn after_text(self, text: Seq<char>) -> TurnState {
        let told = TurnState {
            emitted: if self.gives_out(text) {
                self.emitted + 1
            } else {
                self.emitted
            },
            ..self
        };
        match self.phase {
            Phase::FlushText => TurnState {
                in_audio: true,
                modality_left: INTERLEAVED_AUDIO_RUN as nat,
                ..told
            }.advance(),
            _ => told.wrap_up_audio(),
        }
    }

    /// `frame` is embedded next, after the batch where that makes a chunk.
    pub open spec fn with_frame(self, frame: Seq<i64>) -> TurnState {
        TurnState {
            phase: if self.batch.len() >= self.threshold() {
                Phase::Detokenize(frame)
            } else {
                Phase::EmbedFrame(frame)
            },
            ..self
        }
    }

    /// The depthformer yielded `sampled`.
    pub open spec fn after_codes(self, sampled: Seq<i64>) -> TurnState {
        let counted = self.counted();
        let ends = codes::ends_audio(sampled);
        let sound = codes::clamped(sampled);
        if self.kind is Text {
            if ends {
                counted.wrap_up()
            } else {
                TurnState { batch: counted.batch.push(sound), ..counted }.with_frame(sound)
            }
        } else {
            let back = self.interleaves() && (ends || (counted.modality_left == 0
                && !counted.text_done));
            TurnState {
                in_audio: counted.in_audio && !back,
                modality_left: if back {
                    INTERLEAVED_TEXT_RUN as nat
                } else {
                    counted.modality_left
                },
                batch: if ends {
                    counted.batch
                } else {
                    counted.batch.push(sound)
                },
                ..counted
            }.with_frame(
                if ends {
                    codes::end_frame()
                } else {
                    sound
                },
            )
        }
    }

    /// The batch was turned into `len` samples, which are given out.
    pub open spec fn after_waveform(self, len: nat) -> TurnState {
        let told = TurnState { batch: Seq::empty(), emitted: self.emitted + 1, ..self };
        match self.phase {
            Phase::Detokenize(frame) => TurnState {
                samples: self.samples + len,
                started: true,
                phase: Phase::EmbedFrame(frame),
                ..told
            },
            _ => TurnState { phase: Phase::Finished, ..told },
        }
    }

    /// What holds of every state that a turn comes to.
    pub open spec fn valid(self) -> bool {
        &&& self.steps <= self.limit <= TEXT_TURN_STEPS
        &&& self.generated.len() <= self.steps
        &&& self.batch.len() <= self.steps
        &&& self.modality_left <= INTERLEAVED_AUDIO_RUN
        &&& forall|i: int| 0 <= i < self.batch.len() ==> (#[trigger] self.batch[i]).len() == 8
        &&& (!self.interleaves() && !(self.kind is Text)) ==> {
            &&& !self.in_audio
            &&& self.batch.len() == 0
        }
        &&& match self.phase {
            Phase::RunDecoder => {
                &&& self.steps < self.limit
                &&& self.emitted <= self.steps
                &&& self.holds_less_than_a_chunk()
            },
            Phase::EmbedToken(token) => {
                &&& !self.in_audio
                &&& self.generated.len() > 0
                &&& self.emitted < self.steps
                &&& self.holds_less_than_a_chunk()
            },
            Phase::FlushText => {
                &&& !self.in_audio
                &&& self.generated.len() > 0
                &&& self.emitted < self.steps
                &&& self.holds_less_than_a_chunk()
                &&& self.interleaves() || self.kind is Text
            },
            Phase::Detokenize(frame) => {
                &&& frame.len() == 8
                &&& self.emitted < self.steps
                &&& self.threshold() <= self.batch.len()
                &&& self.batch.len() <= 1 || self.batch.len() == self.threshold()
                &&& self.interleaves() || (self.kind is Text && self.in_audio)
            },
            Phase::EmbedFrame(frame) => {
                &&& frame.len() == 8
                &&& self.emitted <= self.steps
                &&& self.holds_less_than_a_chunk()
                &&& self.interleaves() || (self.kind is Text && self.in_audio)
            },
            Phase::LastText => {
                &&& !self.in_audio
                &&& self.generated.len() > 0
                &&& self.emitted <= self.steps
                &&& self.holds_less_than_a_chunk()
            },
            Phase::LastAudio => {
                &&& self.batch.len() > 0
                &&& self.emitted <= self.steps + 1
                &&& self.holds_less_than_a_chunk()
            },
            Phase::Finished => {
                &&& self.batch.len() == 0
                &&& self.emitted <= self.steps + 2
            },
        }
    }

    /// Whether the batch waits for more frames.
    pub open spec fn holds_less_than_a_chunk(self) -> bool {
        self.batch.len() == 0 || self.batch.len() < self.threshold()
    }
}

} // verus!
