//! The short synthetic turn that warms the graphs up.

use crate::config::{LFM25AudioMode, LFM25AudioOnnxConfig};
use vstd::prelude::*;

verus! {

/// What the warm-up turn answers.
#[derive(Debug)]
pub enum WarmInput {
    /// This many samples of silence at the configured input rate.
    Silence { samples: usize, sample_rate: u32 },
    /// These words.
    Words(String),
}

/// The warm-up turn.
#[derive(Debug)]
pub struct WarmUp {
    pub config: LFM25AudioOnnxConfig,
    pub mode: LFM25AudioMode,
    pub input: WarmInput,
}

/// Number of decoder runs of the warm-up turn: as configured, but at least one
/// and at most four.
pub open spec fn warm_steps(configured: nat) -> nat {
    if configured == 0 {
        1
    } else if configured < 4 {
        configured
    } else {
        4
    }
}

/// Number of samples of silence: a quarter of a second, but at least a
/// hundredth of a second at 16 kHz.
pub open spec fn silence_len(sample_rate: nat) -> nat {
    if sample_rate / 4 < 160 {
        160
    } else {
        sample_rate / 4
    }
}

/// Settings of the warm-up turn: those of the node, kept short and with audio
/// given out as soon as there is any.
pub open spec fn is_warm_config(config: LFM25AudioOnnxConfig, warm: LFM25AudioOnnxConfig) -> bool {
    warm == (LFM25AudioOnnxConfig {
        max_new_tokens: warm_steps(config.max_new_tokens as nat) as usize,
        audio_batch_size: if config.audio_batch_size == 0 {
            1
        } else {
            config.audio_batch_size
        },
        first_chunk_audio_batch_size: match config.first_chunk_audio_batch_size {
            Some(size) => Some(size),
            None => Some(1),
        },
        ..config
    })
}

/// Whether `turn` is the warm-up turn of a node with these settings.
pub open spec fn is_warm_up(config: LFM25AudioOnnxConfig, turn: WarmUp) -> bool {
    &&& is_warm_config(config, turn.config)
    &&& turn.mode == config.mode
    &&& if config.mode.takes_audio() {
        turn.input == (WarmInput::Silence {
            samples: silence_len(config.input_sample_rate as nat) as usize,
            sample_rate: config.input_sample_rate,
        })
    } else {
        turn.input matches WarmInput::Words(words) && words@ == "warmup"@
    }
}

/// The warm-up turn of a node: on silence where its mode takes audio, on a
/// word otherwise.
pub fn warm_up(config: &LFM25AudioOnnxConfig) -> (turn: WarmUp)
    ensures
        is_warm_up(*config, turn),
{
    let mut warm = config.clone();
    if warm.max_new_tokens > 4 {
        warm.max_new_tokens = 4;
    }
    if warm.max_new_tokens == 0 {
        warm.max_new_tokens = 1;
    }
    if warm.audio_batch_size == 0 {
        warm.audio_batch_size = 1;
    }
    if warm.first_chunk_audio_batch_size.is_none() {
        warm.first_chunk_audio_batch_size = Some(1);
    }
    let input = match config.mode {
        LFM25AudioMode::Tts => WarmInput::Words("warmup".to_string()),
        _ => {
            let quarter: u32 = config.input_sample_rate / 4;
            let samples: usize = if quarter < 160 {
                160
            } else {
                quarter as usize
            };
            WarmInput::Silence { samples, sample_rate: config.input_sample_rate }
        },
    };
    WarmUp { config: warm, mode: config.mode, input }
}

/// The turn to run while a node is initialized: the warm-up turn where the
/// node is set up to be warmed up, none otherwise.
pub fn initial_turn(config: &LFM25AudioOnnxConfig) -> (turn: Option<WarmUp>)
    ensures
        turn is Some <==> config.prewarm,
        turn matches Some(warm) ==> is_warm_up(*config, warm),
{
    if config.prewarm {
        Some(warm_up(config))
    } else {
        None
    }
}

/// The warm-up turn takes at least one decoder run and at most four, and as many
/// as configured in between; it hears a quarter of a second, or 160 samples
/// where that is shorter; it gives audio out as soon as there is a chunk, which
/// is never empty; and nothing else is changed.
pub proof fn warm_up_is_short(config: LFM25AudioOnnxConfig, turn: WarmUp)
    requires
        is_warm_up(config, turn),
    ensures
        1 <= turn.config.max_new_tokens <= 4,
        1 <= config.max_new_tokens <= 4 ==> turn.config.max_new_tokens == config.max_new_tokens,
        config.max_new_tokens == 0 ==> turn.config.max_new_tokens == 1,
        config.max_new_tokens > 4 ==> turn.config.max_new_tokens == 4,
        config.audio_batch_size > 0 ==> turn.config.audio_batch_size == config.audio_batch_size,
        config.audio_batch_size == 0 ==> turn.config.audio_batch_size == 1,
        config.first_chunk_audio_batch_size is Some ==> turn.config.first_chunk_audio_batch_size
            == config.first_chunk_audio_batch_size,
        config.first_chunk_audio_batch_size is None ==> turn.config.first_chunk_audio_batch_size
            == Some(1usize),
        turn.mode == config.mode,
        turn.config.mode == config.mode,
        turn.config.precision == config.precision,
        turn.config.model_dir == config.model_dir,
        turn.config.system_prompt == config.system_prompt,
        turn.config.device == config.device,
        turn.config.input_sample_rate == config.input_sample_rate,
        turn.config.output_sample_rate == config.output_sample_rate,
        turn.config.text_temperature == config.text_temperature,
        turn.config.audio_temperature == config.audio_temperature,
        turn.config.audio_top_k == config.audio_top_k,
        turn.config.audio_first_interleaved == config.audio_first_interleaved,
        config.mode == LFM25AudioMode::Tts ==> turn.input is Words && turn.input->Words_0@
            == "warmup"@,
        config.mode != LFM25AudioMode::Tts ==> {
            &&& turn.input is Silence
            &&& turn.input->sample_rate == config.input_sample_rate
            &&& turn.input->samples >= 160
            &&& config.input_sample_rate < 640 ==> turn.input->samples == 160
            &&& config.input_sample_rate >= 640 ==> 4 * turn.input->samples
                <= config.input_sample_rate < 4 * turn.input->samples + 4
        },
{
}

} // verus!
