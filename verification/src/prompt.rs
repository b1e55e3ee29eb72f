//! The prompts of a turn, and how a turn is started from them.

use crate::config::{self, LFM25AudioMode, LFM25AudioOnnxConfig};
use crate::error::NodeError;
use crate::text;
use crate::tokenizer::{self, CheckedTokenizer};
use crate::turn::{Turn, TurnState};
use vstd::prelude::*;

verus! {

/// What stands before the user's words or audio.
pub open spec fn opening(system_prompt: Seq<char>) -> Seq<char> {
    "<|startoftext|><|im_start|>system\n"@ + system_prompt + "<|im_end|>\n<|im_start|>user\n"@
}

/// What stands behind the user's words or audio.
pub open spec fn closing() -> Seq<char> {
    "<|im_end|>\n<|im_start|>assistant\n"@
}

/// The prompt of a turn on text.
pub open spec fn text_prompt(system_prompt: Seq<char>, words: Seq<char>) -> Seq<char> {
    opening(system_prompt) + words + closing()
}

fn write_opening(system_prompt: &str) -> (text: String)
    ensures
        text@ == opening(system_prompt@),
{
    let mut text = "<|startoftext|><|im_start|>system\n".to_string();
    text.append(system_prompt);
    text.append("<|im_end|>\n<|im_start|>user\n");
    text
}

/// A turn on text, with the ids of its prompt.
#[derive(Debug)]
pub struct TextStart {
    pub turn: Turn,
    pub ids: Vec<u32>,
}

/// A turn on audio, with the prompt around the audio.
#[derive(Debug)]
pub struct AudioStart {
    pub turn: Turn,
    /// What stands before the audio, by which its decoder cache is found again.
    pub prefix: String,
    pub prefix_ids: Vec<u32>,
    pub suffix_ids: Vec<u32>,
}

/// Whether `start` is the turn on text that the encoding of its prompt gives.
pub open spec fn starts_text(
    config: &LFM25AudioOnnxConfig,
    mode: LFM25AudioMode,
    encoded: Result<Seq<u32>, Seq<char>>,
    start: Result<TextStart, NodeError>,
) -> bool {
    match encoded {
        Ok(ids) => {
            &&& start matches Ok(text)
            &&& text.ids@ == ids
            &&& text.turn@ == TurnState::on_text_input(
                config,
                mode == LFM25AudioMode::Tts,
                ids.len(),
            )
            &&& text.turn@.valid()
        },
        Err(reason) => start matches Err(NodeError::Tokenization(why)) && why@ == reason,
    }
}

/// Whether `start` is the turn on audio that the encodings of its prompt give.
pub open spec fn starts_audio(
    config: &LFM25AudioOnnxConfig,
    mode: LFM25AudioMode,
    audio_seq: nat,
    prefix: Result<Seq<u32>, Seq<char>>,
    suffix: Result<Seq<u32>, Seq<char>>,
    start: Result<AudioStart, NodeError>,
) -> bool {
    match (prefix, suffix) {
        (Ok(before), Ok(behind)) => {
            &&& start matches Ok(audio)
            &&& audio.prefix@ == opening(config::prompt_in_force(mode, config.system_prompt@))
            &&& audio.prefix_ids@ == before
            &&& audio.suffix_ids@ == behind
            &&& audio.turn@ == TurnState::on_audio_input(
                config,
                mode == LFM25AudioMode::Interleaved,
                audio_seq + behind.len(),
            )
            &&& audio.turn@.valid()
        },
        (Ok(_), Err(reason)) => start matches Err(NodeError::Tokenization(why)) && why@ == reason,
        (Err(reason), _) => start matches Err(NodeError::Tokenization(why)) && why@ == reason,
    }
}

/// Whether the positions of a turn on audio can be counted, where its prompt
/// was encoded at all.
pub open spec fn countable(
    audio_seq: nat,
    prefix: Result<Seq<u32>, Seq<char>>,
    suffix: Result<Seq<u32>, Seq<char>>,
) -> bool {
    match (prefix, suffix) {
        (Ok(_), Ok(behind)) => audio_seq + behind.len() <= usize::MAX,
        _ => true,
    }
}

/// Whether `start` is the turn on audio that the encodings of its prompt give,
/// or the refusal where its positions cannot be counted.
pub open spec fn tries_audio(
    config: &LFM25AudioOnnxConfig,
    mode: LFM25AudioMode,
    audio_seq: nat,
    prefix: Result<Seq<u32>, Seq<char>>,
    suffix: Result<Seq<u32>, Seq<char>>,
    start: Result<AudioStart, NodeError>,
) -> bool {
    if countable(audio_seq, prefix, suffix) {
        starts_audio(config, mode, audio_seq, prefix, suffix, start)
    } else {
        start == Err::<AudioStart, NodeError>(NodeError::InputTooLong)
    }
}

/// The turn on text whose prompt was encoded so. In TTS mode it is one for
/// speech alone.
pub fn text_turn_from(
    config: &LFM25AudioOnnxConfig,
    mode: LFM25AudioMode,
    encoded: Result<Vec<u32>, String>,
) -> (start: Result<TextStart, NodeError>)
    ensures
        starts_text(config, mode, tokenizer::encoding_view(encoded), start),
{
    let speech_only: bool = match mode {
        LFM25AudioMode::Tts => true,
        _ => false,
    };
    match tokenizer::encoding_result(encoded) {
        Ok(ids) => {
            let turn = Turn::for_text(config, speech_only, ids.len());
            Ok(TextStart { turn, ids })
        },
        Err(error) => Err(error),
    }
}

/// Starts a turn on the user's words. In ASR mode there is none.
pub fn start_text_turn(
    tokenizer: &CheckedTokenizer,
    words: &str,
    mode: LFM25AudioMode,
    config: &LFM25AudioOnnxConfig,
) -> (start: Result<TextStart, NodeError>)
    ensures
        !mode.takes_text() ==> start == Err::<TextStart, NodeError>(NodeError::TextInAsr),
        mode.takes_text() ==> exists|encoded: Result<Seq<u32>, Seq<char>>|
            tokenizer::may_yield(
                *tokenizer,
                text_prompt(config::prompt_in_force(mode, config.system_prompt@), words@),
                encoded,
            ) && #[trigger] starts_text(config, mode, encoded, start),
{
    let system_prompt = config::effective_system_prompt(mode, config);
    if let LFM25AudioMode::Asr = mode {
        return Err(NodeError::TextInAsr);
    }
    let mut prompt = write_opening(system_prompt);
    prompt.append(words);
    prompt.append("<|im_end|>\n<|im_start|>assistant\n");
    let encoded = tokenizer.try_encode(prompt.as_str());
    let ghost seen = tokenizer::encoding_view(encoded);
    let start = text_turn_from(config, mode, encoded);
    assert(starts_text(config, mode, seen, start));
    start
}

/// The turn on audio whose prompt was encoded so, and whose audio takes
/// `audio_seq` positions.
pub fn audio_turn_from(
    config: &LFM25AudioOnnxConfig,
    mode: LFM25AudioMode,
    audio_seq: usize,
    prefix: Result<Vec<u32>, String>,
    suffix: Result<Vec<u32>, String>,
) -> (start: Result<AudioStart, NodeError>)
    requires
        countable(
            audio_seq as nat,
            tokenizer::encoding_view(prefix),
            tokenizer::encoding_view(suffix),
        ),
    ensures
        starts_audio(
            config,
            mode,
            audio_seq as nat,
            tokenizer::encoding_view(prefix),
            tokenizer::encoding_view(suffix),
            start,
        ),
{
    let prefix_ids = match tokenizer::encoding_result(prefix) {
        Ok(ids) => ids,
        Err(error) => return Err(error),
    };
    let suffix_ids = match tokenizer::encoding_result(suffix) {
        Ok(ids) => ids,
        Err(error) => return Err(error),
    };
    let system_prompt = config::effective_system_prompt(mode, config);
    let interleaved: bool = match mode {
        LFM25AudioMode::Interleaved => true,
        _ => false,
    };
    let turn = Turn::for_audio(config, interleaved, audio_seq + suffix_ids.len());
    Ok(AudioStart { turn, prefix: write_opening(system_prompt), prefix_ids, suffix_ids })
}

/// Starts a turn on audio that takes `audio_seq` positions. In TTS mode there
/// is none, nor where audio and prompt are more positions than can be counted.
pub fn start_audio_turn(
    tokenizer: &CheckedTokenizer,
    mode: LFM25AudioMode,
    config: &LFM25AudioOnnxConfig,
    audio_seq: usize,
) -> (start: Result<AudioStart, NodeError>)
    ensures
        !mode.takes_audio() ==> start == Err::<AudioStart, NodeError>(NodeError::AudioInTts),
        mode.takes_audio() ==> exists|
            prefix: Result<Seq<u32>, Seq<char>>,
            suffix: Result<Seq<u32>, Seq<char>>,
        |
            {
                &&& tokenizer::may_yield(
                    *tokenizer,
                    opening(config::prompt_in_force(mode, config.system_prompt@)),
                    prefix,
                )
                &&& tokenizer::may_yield(*tokenizer, closing(), suffix)
                &&& #[trigger] tries_audio(config, mode, audio_seq as nat, prefix, suffix, start)
            },
{
    let system_prompt = config::effective_system_prompt(mode, config);
    if let LFM25AudioMode::Tts = mode {
        return Err(NodeError::AudioInTts);
    }
    let opening_text = write_opening(system_prompt);
    let prefix = tokenizer.try_encode(opening_text.as_str());
    let suffix = tokenizer.try_encode("<|im_end|>\n<|im_start|>assistant\n");
    let ghost before = tokenizer::encoding_view(prefix);
    let ghost behind = tokenizer::encoding_view(suffix);
    let countable: bool = match (&prefix, &suffix) {
        (Ok(_), Ok(ids)) => ids.len() <= usize::MAX - audio_seq,
        _ => true,
    };
    let start = if countable {
        audio_turn_from(config, mode, audio_seq, prefix, suffix)
    } else {
        Err(NodeError::InputTooLong)
    };
    assert(tries_audio(config, mode, audio_seq as nat, before, behind, start));
    start
}

/// How a prompt is laid out: the system's turn with its prompt, the user's turn
/// with the words, and the beginning of the assistant's. On audio the same
/// stands around the audio, in the place of the words.
pub proof fn prompt_is_laid_out_in_turns(system_prompt: Seq<char>, words: Seq<char>)
    ensures
        text_prompt(system_prompt, words)
            == "<|startoftext|><|im_start|>system\n"@ + system_prompt
            + "<|im_end|>\n<|im_start|>user\n"@ + words
            + "<|im_end|>\n<|im_start|>assistant\n"@,
        text_prompt(system_prompt, words) == opening(system_prompt) + words + closing(),
        closing() == "<|im_end|>\n<|im_start|>assistant\n"@,
{
}

/// A turn on text is handed the ids of its prompt and reads as many positions;
/// it is for speech alone in TTS mode and in no other. Where the prompt could
/// not be encoded there is none, for the reason that was given.
pub proof fn text_turn_reads_its_prompt(
    config: &LFM25AudioOnnxConfig,
    mode: LFM25AudioMode,
    encoded: Result<Seq<u32>, Seq<char>>,
    start: Result<TextStart, NodeError>,
)
    requires
        starts_text(config, mode, encoded, start),
    ensures
        encoded is Ok <==> start is Ok,
        encoded matches Ok(ids) ==> {
            &&& start->Ok_0.ids@ == ids
            &&& mode == LFM25AudioMode::Tts ==> start->Ok_0.turn@ == TurnState::on_text_input(
                config,
                true,
                ids.len(),
            )
            &&& mode != LFM25AudioMode::Tts ==> start->Ok_0.turn@ == TurnState::on_text_input(
                config,
                false,
                ids.len(),
            )
        },
        encoded matches Err(reason) ==> start->Err_0.wording()
            == "LFM25AudioOnnxNode: tokenization failed: "@ + reason,
{
}

/// A turn on audio is handed the ids on both sides of the audio, finds its
/// decoder cache again by the prompt before it, and reads the audio and the ids
/// behind it; it is interleaved in that mode and in no other. Where a side
/// could not be encoded there is none, for the reason that was given first.
pub proof fn audio_turn_reads_audio_and_suffix(
    config: &LFM25AudioOnnxConfig,
    mode: LFM25AudioMode,
    audio_seq: nat,
    prefix: Result<Seq<u32>, Seq<char>>,
    suffix: Result<Seq<u32>, Seq<char>>,
    start: Result<AudioStart, NodeError>,
)
    requires
        tries_audio(config, mode, audio_seq, prefix, suffix, start),
    ensures
        start is Ok <==> prefix is Ok && suffix is Ok && audio_seq + suffix->Ok_0.len()
            <= usize::MAX,
        start matches Ok(audio) ==> {
            &&& audio.prefix@ == "<|startoftext|><|im_start|>system\n"@ + config::prompt_in_force(
                mode,
                config.system_prompt@,
            ) + "<|im_end|>\n<|im_start|>user\n"@
            &&& audio.prefix_ids@ == prefix->Ok_0
            &&& audio.suffix_ids@ == suffix->Ok_0
            &&& mode == LFM25AudioMode::Interleaved ==> audio.turn@ == TurnState::on_audio_input(
                config,
                true,
                audio_seq + suffix->Ok_0.len(),
            )
            &&& mode != LFM25AudioMode::Interleaved ==> audio.turn@ == TurnState::on_audio_input(
                config,
                false,
                audio_seq + suffix->Ok_0.len(),
            )
        },
        prefix matches Err(reason) ==> start->Err_0.wording()
            == "LFM25AudioOnnxNode: tokenization failed: "@ + reason,
        prefix is Ok && suffix is Err ==> start->Err_0.wording()
            == "LFM25AudioOnnxNode: tokenization failed: "@ + suffix->Err_0,
        prefix is Ok && suffix is Ok && audio_seq + suffix->Ok_0.len() > usize::MAX ==> start
            == Err::<AudioStart, NodeError>(NodeError::InputTooLong),
{
}

} // verus!
