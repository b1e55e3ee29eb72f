//! What can go wrong, and how it is worded.

use crate::text;
use vstd::prelude::*;

verus! {

/// A failure that the library itself decides on.
#[derive(Debug)]
pub enum NodeError {
    /// Text was handed to a turn in ASR mode.
    TextInAsr,
    /// Audio was handed to a turn in TTS mode.
    AudioInTts,
    /// The tokenizer refused a prompt; the reason is the tokenizer's.
    Tokenization(String),
    /// The tokenizer could not turn tokens back into text.
    Decoding(String),
    /// A token has no row in the text embedding table.
    TokenOutsideVocab(u32),
    /// An audio code has no row in the audio embedding table.
    AudioIndexOutOfRange(usize),
    /// The decoder graph returned no token.
    EmptyDecoderToken,
    /// The depthformer graph returned no token.
    EmptyDepthformerToken,
    /// The decoder graph did not return this cache tensor.
    MissingCacheTensor(String),
    /// The unrolled depthformer returned this many codes.
    CodeCount(usize),
    /// The audio front end was given another sample rate than it expects.
    FrontendRate { expected: u32, got: u32 },
    /// A weight file does not hold a whole number of 32-bit words.
    UnalignedBlob { path: String, len: usize },
    /// The model directory lacks these entries.
    IncompleteBundle(Vec<String>),
    /// Audio was handed to a node that takes none.
    AudioNeedsMode,
    /// Audio was handed to the node at another sample rate than configured.
    InputRate { expected: u32, got: u32 },
    /// Text was handed to a node that takes none.
    TextNeedsMode,
    /// The text handed to the node is blank.
    EmptyText,
    /// The node takes no data of this type.
    UnsupportedInput(String),
    /// A turn came to its end without any output.
    NoOutput,
    /// The positions of the input cannot be counted.
    InputTooLong,
}

/// `"LFM25AudioOnnxNode: {a}{middle}{b}{tail}"`.
pub open spec fn worded(a: Seq<char>, middle: Seq<char>, b: Seq<char>, tail: Seq<char>) -> Seq<char> {
    "LFM25AudioOnnxNode: "@ + a + middle + b + tail
}

impl NodeError {
    /// The wording of the failure.
    pub open spec fn wording(self) -> Seq<char> {
        match self {
            NodeError::TextInAsr => "LFM25AudioOnnxNode: text input is not valid in ASR mode"@,
            NodeError::AudioInTts => "LFM25AudioOnnxNode: audio input is not valid in TTS mode"@,
            NodeError::Tokenization(reason) => "LFM25AudioOnnxNode: tokenization failed: "@
                + reason@,
            NodeError::Decoding(reason) => "LFM25AudioOnnxNode: decode failed: "@ + reason@,
            NodeError::TokenOutsideVocab(id) => worded(
                "token id "@,
                text::numeral(id as nat),
                " outside embedding vocab"@,
                ""@,
            ),
            NodeError::AudioIndexOutOfRange(index) => worded(
                "audio embedding index "@,
                text::numeral(index as nat),
                " out of range"@,
                ""@,
            ),
            NodeError::EmptyDecoderToken => "LFM25AudioOnnxNode: decoder token output was empty"@,
            NodeError::EmptyDepthformerToken =>
                "LFM25AudioOnnxNode: depthformer token output was empty"@,
            NodeError::MissingCacheTensor(name) =>
                "LFM25AudioOnnxNode: decoder output missing required cache tensor "@ + name@,
            NodeError::CodeCount(count) => worded(
                "unrolled depthformer returned "@,
                text::numeral(count as nat),
                " codes, expected 8"@,
                ""@,
            ),
            NodeError::FrontendRate { expected, got } => worded(
                "ASR frontend expects "@,
                text::numeral(expected as nat),
                "Hz audio, got "@,
                text::numeral(got as nat) + "Hz"@,
            ),
            NodeError::UnalignedBlob { path, len } => worded(
                path@,
                " byte length "@,
                text::numeral(len as nat),
                " is not aligned to f32"@,
            ),
            NodeError::IncompleteBundle(missing) =>
                "LFM25AudioOnnxNode: model bundle is incomplete; missing "@ + text::joined(
                    text::views(missing@),
                    ", "@,
                ),
            NodeError::AudioNeedsMode =>
                "LFM25AudioOnnxNode: audio input requires asr or interleaved mode"@,
            NodeError::InputRate { expected, got } => worded(
                "expected "@,
                text::numeral(expected as nat),
                "Hz audio input, got "@,
                text::numeral(got as nat) + "Hz"@,
            ),
            NodeError::TextNeedsMode =>
                "LFM25AudioOnnxNode: text input requires tts or interleaved mode"@,
            NodeError::EmptyText => "LFM25AudioOnnxNode: text input must not be empty"@,
            NodeError::UnsupportedInput(data_type) =>
                "LFM25AudioOnnxNode expects Audio, Text, or aux Json input; got "@ + data_type@,
            NodeError::NoOutput => "LFM25AudioOnnxNode produced no outputs"@,
            NodeError::InputTooLong => "LFM25AudioOnnxNode: input is too long"@,
        }
    }

    fn word(a: &str, middle: &str, b: &str, tail: &str) -> (message: String)
        ensures
            message@ == worded(a@, middle@, b@, tail@),
    {
        let mut message = "LFM25AudioOnnxNode: ".to_string();
        message.append(a);
        message.append(middle);
        message.append(b);
        message.append(tail);
        message
    }

    /// Words the failure.
    pub fn message(&self) -> (message: String)
        ensures
            message@ == self.wording(),
    {
        match self {
            NodeError::TextInAsr => {
                "LFM25AudioOnnxNode: text input is not valid in ASR mode".to_string()
            },
            NodeError::AudioInTts => {
                "LFM25AudioOnnxNode: audio input is not valid in TTS mode".to_string()
            },
            NodeError::Tokenization(reason) => text::concat(
                "LFM25AudioOnnxNode: tokenization failed: ",
                reason.as_str(),
            ),
            NodeError::Decoding(reason) => text::concat(
                "LFM25AudioOnnxNode: decode failed: ",
                reason.as_str(),
            ),
            NodeError::TokenOutsideVocab(id) => {
                let number = text::decimal(*id as u64);
                Self::word("token id ", number.as_str(), " outside embedding vocab", "")
            },
            NodeError::AudioIndexOutOfRange(index) => {
                let number = text::decimal(*index as u64);
                Self::word("audio embedding index ", number.as_str(), " out of range", "")
            },
            NodeError::EmptyDecoderToken => {
                "LFM25AudioOnnxNode: decoder token output was empty".to_string()
            },
            NodeError::EmptyDepthformerToken => {
                "LFM25AudioOnnxNode: depthformer token output was empty".to_string()
            },
            NodeError::MissingCacheTensor(name) => text::concat(
                "LFM25AudioOnnxNode: decoder output missing required cache tensor ",
                name.as_str(),
            ),
            NodeError::CodeCount(count) => {
                let number = text::decimal(*count as u64);
                Self::word(
                    "unrolled depthformer returned ",
                    number.as_str(),
                    " codes, expected 8",
                    "",
                )
            },
            NodeError::FrontendRate { expected, got } => {
                let wanted = text::decimal(*expected as u64);
                let number = text::decimal(*got as u64);
                let tail = text::concat(number.as_str(), "Hz");
                Self::word(
                    "ASR frontend expects ",
                    wanted.as_str(),
                    "Hz audio, got ",
                    tail.as_str(),
                )
            },
            NodeError::UnalignedBlob { path, len } => {
                let number = text::decimal(*len as u64);
                Self::word(
                    path.as_str(),
                    " byte length ",
                    number.as_str(),
                    " is not aligned to f32",
                )
            },
            NodeError::IncompleteBundle(missing) => {
                let list = text::join(missing, ", ");
                text::concat(
                    "LFM25AudioOnnxNode: model bundle is incomplete; missing ",
                    list.as_str(),
                )
            },
            NodeError::AudioNeedsMode => {
                "LFM25AudioOnnxNode: audio input requires asr or interleaved mode".to_string()
            },
            NodeError::InputRate { expected, got } => {
                let wanted = text::decimal(*expected as u64);
                let number = text::decimal(*got as u64);
                let tail = text::concat(number.as_str(), "Hz");
                Self::word("expected ", wanted.as_str(), "Hz audio input, got ", tail.as_str())
            },
            NodeError::TextNeedsMode => {
                "LFM25AudioOnnxNode: text input requires tts or interleaved mode".to_string()
            },
            NodeError::EmptyText => {
                "LFM25AudioOnnxNode: text input must not be empty".to_string()
            },
            NodeError::UnsupportedInput(data_type) => text::concat(
                "LFM25AudioOnnxNode expects Audio, Text, or aux Json input; got ",
                data_type.as_str(),
            ),
            NodeError::NoOutput => "LFM25AudioOnnxNode produced no outputs".to_string(),
            NodeError::InputTooLong => "LFM25AudioOnnxNode: input is too long".to_string(),
        }
    }
}

/// How each failure is worded: under the name of the node, with the numbers,
/// names and reasons that belong to it in their places.
pub proof fn failures_are_worded(
    reason: String,
    id: u32,
    count: usize,
    expected: u32,
    got: u32,
    missing: Vec<String>,
)
    ensures
        NodeError::TextInAsr.wording()
            == "LFM25AudioOnnxNode: text input is not valid in ASR mode"@,
        NodeError::AudioInTts.wording()
            == "LFM25AudioOnnxNode: audio input is not valid in TTS mode"@,
        NodeError::Tokenization(reason).wording() == "LFM25AudioOnnxNode: tokenization failed: "@
            + reason@,
        NodeError::Decoding(reason).wording() == "LFM25AudioOnnxNode: decode failed: "@ + reason@,
        NodeError::TokenOutsideVocab(id).wording() == "LFM25AudioOnnxNode: "@ + "token id "@
            + text::numeral(id as nat) + " outside embedding vocab"@,
        NodeError::AudioIndexOutOfRange(count).wording() == "LFM25AudioOnnxNode: "@
            + "audio embedding index "@ + text::numeral(count as nat) + " out of range"@,
        NodeError::EmptyDecoderToken.wording()
            == "LFM25AudioOnnxNode: decoder token output was empty"@,
        NodeError::EmptyDepthformerToken.wording()
            == "LFM25AudioOnnxNode: depthformer token output was empty"@,
        NodeError::MissingCacheTensor(reason).wording()
            == "LFM25AudioOnnxNode: decoder output missing required cache tensor "@ + reason@,
        NodeError::CodeCount(count).wording() == "LFM25AudioOnnxNode: "@
            + "unrolled depthformer returned "@ + text::numeral(count as nat)
            + " codes, expected 8"@,
        (NodeError::FrontendRate { expected, got }).wording() == "LFM25AudioOnnxNode: "@
            + "ASR frontend expects "@ + text::numeral(expected as nat) + "Hz audio, got "@ + (
        text::numeral(got as nat) + "Hz"@),
        (NodeError::UnalignedBlob { path: reason, len: count }).wording()
            == "LFM25AudioOnnxNode: "@ + reason@ + " byte length "@ + text::numeral(count as nat)
            + " is not aligned to f32"@,
        NodeError::IncompleteBundle(missing).wording()
            == "LFM25AudioOnnxNode: model bundle is incomplete; missing "@ + text::joined(
            text::views(missing@),
            ", "@,
        ),
        NodeError::AudioNeedsMode.wording()
            == "LFM25AudioOnnxNode: audio input requires asr or interleaved mode"@,
        (NodeError::InputRate { expected, got }).wording() == "LFM25AudioOnnxNode: "@ + "expected "@
            + text::numeral(expected as nat) + "Hz audio input, got "@ + (text::numeral(got as nat)
            + "Hz"@),
        NodeError::TextNeedsMode.wording()
            == "LFM25AudioOnnxNode: text input requires tts or interleaved mode"@,
        NodeError::EmptyText.wording() == "LFM25AudioOnnxNode: text input must not be empty"@,
        NodeError::UnsupportedInput(reason).wording()
            == "LFM25AudioOnnxNode expects Audio, Text, or aux Json input; got "@ + reason@,
        NodeError::NoOutput.wording() == "LFM25AudioOnnxNode produced no outputs"@,
{
    reveal_strlit("");
    let a = NodeError::TokenOutsideVocab(id).wording();
    assert(a =~= "LFM25AudioOnnxNode: "@ + "token id "@ + text::numeral(id as nat)
        + " outside embedding vocab"@);
    let b = NodeError::AudioIndexOutOfRange(count).wording();
    assert(b =~= "LFM25AudioOnnxNode: "@ + "audio embedding index "@ + text::numeral(count as nat)
        + " out of range"@);
    let c = NodeError::CodeCount(count).wording();
    assert(c =~= "LFM25AudioOnnxNode: "@ + "unrolled depthformer returned "@ + text::numeral(
        count as nat,
    ) + " codes, expected 8"@);
}

} // verus!
