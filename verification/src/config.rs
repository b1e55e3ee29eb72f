//! Configuration of the node and of the models it runs.

use crate::scalar::{F32Bits, ONE_BITS};
use crate::text;
use vstd::prelude::*;

verus! {

/// What the node takes in and gives out: audio to text, text to audio, or
/// either to interleaved text and audio.
#[derive(Debug, Clone, Copy, PartialEq, Eq, Structural)]
pub enum LFM25AudioMode {
    Asr,
    Tts,
    Interleaved,
}

impl Default for LFM25AudioMode {
    fn default() -> (mode: Self)
        ensures
            mode == LFM25AudioMode::Interleaved,
    {
        LFM25AudioMode::Interleaved
    }
}

impl LFM25AudioMode {
    /// Whether the mode takes audio.
    pub open spec fn takes_audio(self) -> bool {
        self == LFM25AudioMode::Asr || self == LFM25AudioMode::Interleaved
    }

    /// Whether the mode takes text.
    pub open spec fn takes_text(self) -> bool {
        self == LFM25AudioMode::Tts || self == LFM25AudioMode::Interleaved
    }
}

/// The family of model graphs to load.
#[derive(Debug, Clone, Copy, PartialEq, Eq, Structural)]
pub enum LFM25AudioPrecision {
    Q4,
    Fp16,
    Fp32,
}

impl Default for LFM25AudioPrecision {
    fn default() -> (precision: Self)
        ensures
            precision == LFM25AudioPrecision::Q4,
    {
        LFM25AudioPrecision::Q4
    }
}

impl LFM25AudioPrecision {
    /// What the precision adds to the stem of a graph's file name.
    pub open spec fn suffix_text(self) -> Seq<char> {
        match self {
            LFM25AudioPrecision::Q4 => "_q4"@,
            LFM25AudioPrecision::Fp16 => "_fp16"@,
            LFM25AudioPrecision::Fp32 => ""@,
        }
    }

    /// What the precision adds to the stem of a graph's file name.
    pub fn suffix(self) -> (suffix: &'static str)
        ensures
            suffix@ == self.suffix_text(),
    {
        match self {
            LFM25AudioPrecision::Q4 => "_q4",
            LFM25AudioPrecision::Fp16 => "_fp16",
            LFM25AudioPrecision::Fp32 => "",
        }
    }
}

/// Settings of the node.
#[derive(Debug)]
pub struct LFM25AudioOnnxConfig {
    /// Directory of the unpacked model bundle. Graphs are looked for in its
    /// `onnx` directory where it has one.
    pub model_dir: String,
    /// Default mode for the node.
    pub mode: LFM25AudioMode,
    /// Selected precision family.
    pub precision: LFM25AudioPrecision,
    /// Persona / behavior prompt.
    pub system_prompt: String,
    /// Execution device: `cuda:0`, `cuda:1`, or `cpu`.
    pub device: String,
    /// Maximum number of decode steps delegated to the backend.
    pub max_new_tokens: usize,
    /// Expected ASR input sample rate.
    pub input_sample_rate: u32,
    /// Generated speech sample rate.
    pub output_sample_rate: u32,
    /// Steady-state audio frame grouping hint.
    pub audio_batch_size: usize,
    /// Optional smaller threshold for the first generated audio chunk.
    pub first_chunk_audio_batch_size: Option<usize>,
    /// Text-token sampling temperature.
    pub text_temperature: F32Bits,
    /// Audio-code sampling temperature.
    pub audio_temperature: F32Bits,
    /// Optional top-k cutoff for audio codebook sampling; zero is none.
    pub audio_top_k: usize,
    /// In an interleaved turn on audio, go over to audio after the first
    /// decoder decision instead of waiting for the text run to end.
    pub audio_first_interleaved: bool,
    /// Load all graphs and run a short synthetic turn while initializing.
    pub prewarm: bool,
    /// Optional precision of the depthformer alone.
    pub depthformer_precision: Option<LFM25AudioPrecision>,
    /// Optional device of the depthformer alone.
    pub depthformer_device: Option<String>,
    /// When false, skip the unrolled depthformer even where it exists.
    pub use_unrolled_depthformer: bool,
}

/// Whether these are the settings of a node that is given none.
pub open spec fn is_default(config: LFM25AudioOnnxConfig) -> bool {
    &&& config.model_dir@ == "models/LFM2.5-Audio-1.5B-ONNX"@
    &&& config.mode == LFM25AudioMode::Interleaved
    &&& config.precision == LFM25AudioPrecision::Q4
    &&& config.system_prompt@ == Seq::<char>::empty()
    &&& config.device@ == "cpu"@
    &&& config.max_new_tokens == 4096
    &&& config.input_sample_rate == 16_000
    &&& config.output_sample_rate == 24_000
    &&& config.audio_batch_size == 12
    &&& config.first_chunk_audio_batch_size is None
    &&& config.text_temperature.bits == ONE_BITS
    &&& config.audio_temperature.bits == ONE_BITS
    &&& config.audio_top_k == 4
    &&& !config.audio_first_interleaved
    &&& !config.prewarm
    &&& config.depthformer_precision is None
    &&& config.depthformer_device is None
    &&& config.use_unrolled_depthformer
}

impl Default for LFM25AudioOnnxConfig {
    fn default() -> (config: Self)
        ensures
            is_default(config),
    {
        LFM25AudioOnnxConfig {
            model_dir: "models/LFM2.5-Audio-1.5B-ONNX".to_string(),
            mode: LFM25AudioMode::Interleaved,
            precision: LFM25AudioPrecision::Q4,
            system_prompt: String::new(),
            device: "cpu".to_string(),
            max_new_tokens: 4096,
            input_sample_rate: 16_000,
            output_sample_rate: 24_000,
            audio_batch_size: 12,
            first_chunk_audio_batch_size: None,
            text_temperature: F32Bits { bits: ONE_BITS },
            audio_temperature: F32Bits { bits: ONE_BITS },
            audio_top_k: 4,
            audio_first_interleaved: false,
            prewarm: false,
            depthformer_precision: None,
            depthformer_device: None,
            use_unrolled_depthformer: true,
        }
    }
}

impl Clone for LFM25AudioOnnxConfig {
    fn clone(&self) -> (copy: Self)
        ensures
            copy == *self,
    {
        let depthformer_device = match &self.depthformer_device {
            Some(device) => Some(device.clone()),
            None => None,
        };
        LFM25AudioOnnxConfig {
            model_dir: self.model_dir.clone(),
            mode: self.mode,
            precision: self.precision,
            system_prompt: self.system_prompt.clone(),
            device: self.device.clone(),
            max_new_tokens: self.max_new_tokens,
            input_sample_rate: self.input_sample_rate,
            output_sample_rate: self.output_sample_rate,
            audio_batch_size: self.audio_batch_size,
            first_chunk_audio_batch_size: self.first_chunk_audio_batch_size,
            text_temperature: self.text_temperature,
            audio_temperature: self.audio_temperature,
            audio_top_k: self.audio_top_k,
            audio_first_interleaved: self.audio_first_interleaved,
            prewarm: self.prewarm,
            depthformer_precision: self.depthformer_precision,
            depthformer_device,
            use_unrolled_depthformer: self.use_unrolled_depthformer,
        }
    }
}

/// The prompt for a mode whose configuration names none.
pub open spec fn stock_prompt(mode: LFM25AudioMode) -> Seq<char> {
    match mode {
        LFM25AudioMode::Asr => "Perform ASR."@,
        LFM25AudioMode::Tts => "Perform TTS. Use the UK female voice."@,
        LFM25AudioMode::Interleaved => "Respond with interleaved text and audio."@,
    }
}

/// The configured prompt, or the mode's own where that is blank.
pub open spec fn prompt_in_force(mode: LFM25AudioMode, configured: Seq<char>) -> Seq<char> {
    if text::is_blank(configured) {
        stock_prompt(mode)
    } else {
        configured
    }
}

/// The system prompt of a turn in `mode`.
pub fn effective_system_prompt(mode: LFM25AudioMode, config: &LFM25AudioOnnxConfig) -> (prompt:
    &str)
    ensures
        prompt@ == prompt_in_force(mode, config.system_prompt@),
{
    if !text::is_blank_text(config.system_prompt.as_str()) {
        return config.system_prompt.as_str();
    }
    match mode {
        LFM25AudioMode::Asr => "Perform ASR.",
        LFM25AudioMode::Tts => "Perform TTS. Use the UK female voice.",
        LFM25AudioMode::Interleaved => "Respond with interleaved text and audio.",
    }
}

/// Width of a hidden state where the model does not say.
pub fn default_hidden_size() -> (size: usize)
    ensures
        size == 2048,
{
    2048
}

/// Number of decoder layers where the model does not say.
pub fn default_num_layers() -> (layers: usize)
    ensures
        layers == 16,
{
    16
}

/// Number of key/value heads where the model does not say.
pub fn default_num_kv_heads() -> (heads: usize)
    ensures
        heads == 8,
{
    8
}

/// Number of attention heads where the model does not say.
pub fn default_num_heads() -> (heads: usize)
    ensures
        heads == 32,
{
    32
}

/// Length of a convolution cache where the model does not say.
pub fn default_conv_cache() -> (len: usize)
    ensures
        len == 3,
{
    3
}

/// Size of the text vocabulary where the model does not say.
pub fn default_vocab_size() -> (size: usize)
    ensures
        size == 65_536,
{
    65_536
}

/// Shape of the decoder.
#[derive(Debug)]
pub struct LfmCoreConfig {
    pub hidden_size: usize,
    pub num_hidden_layers: usize,
    pub num_key_value_heads: usize,
    pub num_attention_heads: usize,
    pub conv_l_cache: usize,
    /// One entry per layer: `conv`, or anything else for attention.
    pub layer_types: Vec<String>,
    pub vocab_size: usize,
}

impl Default for LfmCoreConfig {
    fn default() -> (config: Self)
        ensures
            config.hidden_size == 2048,
            config.num_hidden_layers == 16,
            config.num_key_value_heads == 8,
            config.num_attention_heads == 32,
            config.conv_l_cache == 3,
            config.layer_types@.len() == 0,
            config.vocab_size == 65_536,
    {
        LfmCoreConfig {
            hidden_size: default_hidden_size(),
            num_hidden_layers: default_num_layers(),
            num_key_value_heads: default_num_kv_heads(),
            num_attention_heads: default_num_heads(),
            conv_l_cache: default_conv_cache(),
            layer_types: Vec::new(),
            vocab_size: default_vocab_size(),
        }
    }
}

/// Shape of an embedding table.
#[derive(Debug, Clone, Copy, PartialEq, Eq, Structural)]
pub struct EmbeddingMeta {
    pub vocab_size: usize,
    pub hidden_size: usize,
}

/// Bit pattern of the upper band edge, 8000 Hz.
pub const MEL_FMAX_BITS: u32 = 0x45fa_0000;

/// Bit pattern of the pre-emphasis factor, 0.97.
pub const MEL_PREEMPH_BITS: u32 = 0x3f78_51ec;

/// Bit pattern of two to the power of minus 24.
pub const MEL_GUARD_BITS: u32 = 0x3380_0000;

/// Settings of the audio front end.
#[derive(Debug, Clone, Copy, PartialEq, Eq, Structural)]
pub struct MelConfig {
    pub sample_rate: u32,
    pub n_fft: usize,
    pub win_length: usize,
    pub hop_length: usize,
    pub n_mels: usize,
    pub fmin: F32Bits,
    pub fmax: F32Bits,
    pub preemph: F32Bits,
    pub log_zero_guard: F32Bits,
}

impl Default for MelConfig {
    fn default() -> (config: Self)
        ensures
            config.sample_rate == 16_000,
            config.n_fft == 512,
            config.win_length == 400,
            config.hop_length == 160,
            config.n_mels == 128,
            config.fmin.bits == 0,
            config.fmax.bits == MEL_FMAX_BITS,
            config.preemph.bits == MEL_PREEMPH_BITS,
            config.log_zero_guard.bits == MEL_GUARD_BITS,
    {
        MelConfig {
            sample_rate: 16_000,
            n_fft: 512,
            win_length: 400,
            hop_length: 160,
            n_mels: 128,
            fmin: F32Bits { bits: 0 },
            fmax: F32Bits { bits: MEL_FMAX_BITS },
            preemph: F32Bits { bits: MEL_PREEMPH_BITS },
            log_zero_guard: F32Bits { bits: MEL_GUARD_BITS },
        }
    }
}

/// A configured prompt that says anything is used as it is, in every mode;
/// where it is blank each mode has its own.
pub proof fn prompts_are_configured_or_stock(mode: LFM25AudioMode, configured: Seq<char>, i: int)
    ensures
        0 <= i < configured.len() && !text::is_white(configured[i]) ==> prompt_in_force(
            mode,
            configured,
        ) == configured,
        (forall|k: int| 0 <= k < configured.len() ==> text::is_white(#[trigger] configured[k]))
            ==> {
            &&& prompt_in_force(LFM25AudioMode::Asr, configured) == "Perform ASR."@
            &&& prompt_in_force(LFM25AudioMode::Tts, configured)
                == "Perform TTS. Use the UK female voice."@
            &&& prompt_in_force(LFM25AudioMode::Interleaved, configured)
                == "Respond with interleaved text and audio."@
        },
{
}

/// `asr` takes audio alone, `tts` takes text alone, and `interleaved` takes
/// both.
pub proof fn modes_take_their_input(mode: LFM25AudioMode)
    ensures
        mode == LFM25AudioMode::Asr ==> mode.takes_audio() && !mode.takes_text(),
        mode == LFM25AudioMode::Tts ==> !mode.takes_audio() && mode.takes_text(),
        mode == LFM25AudioMode::Interleaved ==> mode.takes_audio() && mode.takes_text(),
{
}

/// Graphs of four bits and of half precision are told apart by a suffix, those
/// of full precision have none.
pub proof fn precisions_have_their_suffixes(precision: LFM25AudioPrecision)
    ensures
        precision == LFM25AudioPrecision::Q4 ==> precision.suffix_text() == "_q4"@,
        precision == LFM25AudioPrecision::Fp16 ==> precision.suffix_text() == "_fp16"@,
        precision == LFM25AudioPrecision::Fp32 ==> precision.suffix_text().len() == 0,
{
    reveal_strlit("");
}

/// What a node does that is given no settings: interleaved mode with graphs of
/// four bits on the CPU, audio in at 16 kHz and out at 24 kHz in chunks of
/// twelve frames, sampling at a temperature of one and, for audio, among the top
/// four, and nothing switched on besides the unrolled depthformer.
pub proof fn defaults_are_those_of_an_interleaved_node(config: LFM25AudioOnnxConfig)
    requires
        is_default(config),
    ensures
        config.model_dir@ == "models/LFM2.5-Audio-1.5B-ONNX"@,
        config.mode.takes_audio() && config.mode.takes_text(),
        config.precision.suffix_text() == "_q4"@,
        config.system_prompt@.len() == 0,
        config.device@ == "cpu"@,
        config.max_new_tokens == 4096,
        config.input_sample_rate == 16000,
        config.output_sample_rate == 24000,
        config.audio_batch_size == 12,
        config.first_chunk_audio_batch_size is None,
        config.text_temperature.bits == 0x3f80_0000,
        config.audio_temperature.bits == 0x3f80_0000,
        config.audio_top_k == 4,
        !config.audio_first_interleaved,
        !config.prewarm,
        config.depthformer_precision is None,
        config.depthformer_device is None,
        config.use_unrolled_depthformer,
{
}

} // verus!
