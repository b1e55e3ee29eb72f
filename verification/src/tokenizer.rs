//! The tokenizer, as the library calls it.

use crate::error::NodeError;
use crate::json;
use crate::soundness;
use crate::tokenizer_file;
use serde_json::Value;
use tokenizers::Tokenizer;
use vstd::prelude::*;

verus! {

/// `tokenizers::Tokenizer`, carried as an opaque value.
#[verifier::external_type_specification]
#[verifier::external_body]
pub struct ExTokenizer(tokenizers::Tokenizer);

/// Whether `serde_json::from_value` may hand back `outcome` for the value in a
/// tokenizer's file: the tokenizer, or the wording of what is wrong with it. It
/// is a relation and no function because some of both goes by the order in
/// which hash maps are walked: which of two tokens an id that they share stands
/// for, and which of several missing members is named.
pub uninterp spec fn may_load(source: Value, outcome: Result<Tokenizer, Seq<char>>) -> bool;

/// What `serde_json::to_value` makes of the truncation, the padding, the
/// normalizer, the pre-tokenizer, the post-processor and the decoder of a
/// tokenizer, as a list; nothing where they cannot be written down.
pub uninterp spec fn settings_of(tokenizer: Tokenizer) -> Option<Value>;

/// Whether `Tokenizer::encode` may hand back `outcome` for these arguments:
/// the ids of the tokens, or the wording of its failure. It is a relation and
/// no function because a model with dropout tokenizes at random.
pub uninterp spec fn may_encode(
    tokenizer: Tokenizer,
    text: Seq<char>,
    add_special_tokens: bool,
    outcome: Result<Seq<u32>, Seq<char>>,
) -> bool;

/// What `Tokenizer::decode` hands back for these arguments: the text, or the
/// wording of its failure.
pub uninterp spec fn decoding(
    tokenizer: Tokenizer,
    ids: Seq<u32>,
    skip_special_tokens: bool,
) -> Result<Seq<char>, Seq<char>>;

/// The view of a tokenizer's loading.
pub open spec fn loading_view(outcome: Result<Tokenizer, String>) -> Result<Tokenizer, Seq<char>> {
    match outcome {
        Ok(tokenizer) => Ok(tokenizer),
        Err(reason) => Err(reason@),
    }
}

/// The view of an encoding.
pub open spec fn encoding_view(outcome: Result<Vec<u32>, String>) -> Result<Seq<u32>, Seq<char>> {
    match outcome {
        Ok(ids) => Ok(ids@),
        Err(reason) => Err(reason@),
    }
}

/// The view of a decoding.
pub open spec fn decoding_view(outcome: Result<String, String>) -> Result<Seq<char>, Seq<char>> {
    match outcome {
        Ok(text) => Ok(text@),
        Err(reason) => Err(reason@),
    }
}

/// Calls `serde_json::from_value` for a `Tokenizer`, which is read from a value
/// as from the text of a file. The contract claims only that the tokenizer, or
/// the wording of the error, is one that the call may have for the value.
///
/// It is not called with a value on which it panics:
///
/// - an expression to look for whose parts are repeated so often that the
///   least length of a match overflows;
/// - a precompiled normalizer, which has to be well-formed, or a stage that may
///   turn out to be one, since it names its kind by no text or is a list;
/// - added tokens that are normalized, which is done right away, by a
///   normalizer that may leave nothing of them or does not keep track of what
///   it changes;
/// - a model that cuts a prefix off the parts of its merges, which may be
///   shorter;
/// - an added token whose id leaves no room for the next.
#[verifier::external_body]
fn tokenizer_from_value(source: Value) -> (tokenizer: Result<Tokenizer, String>)
    requires
        tokenizer_file::can_load(source),
    ensures
        may_load(source, loading_view(tokenizer)),
{
    match serde_json::from_value::<Tokenizer>(source) {
        Ok(tokenizer) => Ok(tokenizer),
        Err(error) => Err(error.to_string()),
    }
}

/// Calls `serde_json::to_value` on the settings of a tokenizer: what
/// `Tokenizer::get_truncation`, `get_padding`, `get_normalizer`,
/// `get_pre_tokenizer`, `get_post_processor` and `get_decoder` give, in this
/// order. The contract claims that the value depends on the tokenizer alone:
/// none of them is written down in an order that may differ.
#[verifier::external_body]
fn tokenizer_settings(tokenizer: &Tokenizer) -> (settings: Option<Value>)
    ensures
        settings == settings_of(*tokenizer),
{
    serde_json::to_value((
        tokenizer.get_truncation(),
        tokenizer.get_padding(),
        tokenizer.get_normalizer(),
        tokenizer.get_pre_tokenizer(),
        tokenizer.get_post_processor(),
        tokenizer.get_decoder(),
    )).ok()
}

/// Whether a tokenizer that was made of the value in `source` can encode every
/// text.
pub open spec fn can_encode(source: Value, tokenizer: Tokenizer) -> bool {
    &&& tokenizer_file::can_load(source)
    &&& may_load(source, Ok(tokenizer))
    &&& tokenizer_file::keeps_tokens_apart(source)
    &&& soundness::can_encode(settings_of(tokenizer))
}

/// Calls `Tokenizer::encode` and keeps the ids of the encoding, or the wording
/// of the error. The contract claims only that the outcome is one that the
/// call may have for these arguments; which ids those are is left unsaid, and
/// with a model that drops merges at random two calls may differ.
///
/// It is called only with a tokenizer as it was made of a file, so that it
/// looks for the added tokens of that file, normalized by its own normalizer.
/// It is not called with settings on which it panics or does not return:
///
/// - a truncation whose stride is not below its length, once a text is longer,
///   and a padding beyond what can be allocated;
/// - a precompiled normalizer, whose table is looked up unchecked, and one that
///   inserts something at the beginning of a text in place of nothing, which
///   the next change of the whole text loses count of;
/// - added tokens that normalize to nothing and are then found inside a
///   character, or that take white space from each other, so that one ends
///   before it begins;
/// - pieces of a fixed length of zero, and an expression to split by that
///   refers to its own groups or moves the beginning of its match;
/// - a template with a second text, or with more or fewer than one in a row of
///   templates.
///
/// Nor is it asked to add special tokens, for which a truncation may have no
/// room.
#[verifier::external_body]
fn tokenizer_encode(tokenizer: &Tokenizer, text: &str, add_special_tokens: bool) -> (outcome: Result<
    Vec<u32>,
    String,
>)
    requires
        exists|source: Value| #[trigger] can_encode(source, *tokenizer),
        !add_special_tokens,
    ensures
        may_encode(*tokenizer, text@, add_special_tokens, encoding_view(outcome)),
{
    match tokenizer.encode(text, add_special_tokens) {
        Ok(encoding) => Ok(encoding.get_ids().to_vec()),
        Err(error) => Err(error.to_string()),
    }
}

/// Calls `Tokenizer::decode`. The contract claims that the text, or the
/// wording of the error, is determined by the tokenizer and the arguments;
/// what it is for given ids is left unsaid.
///
/// It is not called with a decoder that panics on some tokens or does not
/// return: a BPE decoder counts down from the number of tokens, which may be
/// none; a strip decoder that cuts at the end of a token counts down from its
/// length; an expression to replace may refer to its own groups or move the
/// beginning of its match.
#[verifier::external_body]
fn tokenizer_decode(tokenizer: &Tokenizer, ids: &Vec<u32>, skip_special_tokens: bool) -> (outcome:
    Result<String, String>)
    requires
        soundness::can_decode(settings_of(*tokenizer)),
    ensures
        decoding_view(outcome) == decoding(*tokenizer, ids@, skip_special_tokens),
{
    match tokenizer.decode(ids.as_slice(), skip_special_tokens) {
        Ok(text) => Ok(text),
        Err(error) => Err(error.to_string()),
    }
}

/// Whether `result` tells what `outcome` tells, the failure as one of the
/// library's own.
pub open spec fn tells_encoding(
    outcome: Result<Seq<u32>, Seq<char>>,
    result: Result<Vec<u32>, NodeError>,
) -> bool {
    match outcome {
        Ok(ids) => result matches Ok(list) && list@ == ids,
        Err(reason) => result matches Err(NodeError::Tokenization(why)) && why@ == reason,
    }
}

/// Whether `result` tells what `outcome` tells, the failure as one of the
/// library's own.
pub open spec fn tells_decoding(
    outcome: Result<Seq<char>, Seq<char>>,
    result: Result<String, NodeError>,
) -> bool {
    match outcome {
        Ok(text) => result matches Ok(string) && string@ == text,
        Err(reason) => result matches Err(NodeError::Decoding(why)) && why@ == reason,
    }
}

/// Words the failure of an encoding as one of the library's own.
pub fn encoding_result(outcome: Result<Vec<u32>, String>) -> (result: Result<Vec<u32>, NodeError>)
    ensures
        tells_encoding(encoding_view(outcome), result),
{
    match outcome {
        Ok(ids) => Ok(ids),
        Err(reason) => Err(NodeError::Tokenization(reason)),
    }
}

/// Words the failure of a decoding as one of the library's own.
pub fn decoding_result(outcome: Result<String, String>) -> (result: Result<String, NodeError>)
    ensures
        tells_decoding(decoding_view(outcome), result),
{
    match outcome {
        Ok(text) => Ok(text),
        Err(reason) => Err(NodeError::Decoding(reason)),
    }
}

/// The reason that is given where a tokenizer is not called.
pub open spec fn refusal() -> Seq<char> {
    "the tokenizer cannot carry out its settings"@
}

/// A tokenizer as it was made of its file, with what its settings allow for. It
/// is called only where they do.
pub struct CheckedTokenizer {
    tokenizer: Tokenizer,
    source: Ghost<Value>,
    encodes: bool,
    decodes: bool,
}

/// Whether `made` tells what `outcome` tells of the value in `source`.
pub open spec fn tells_loading(
    source: Value,
    outcome: Result<Tokenizer, Seq<char>>,
    made: Result<CheckedTokenizer, String>,
) -> bool {
    match outcome {
        Ok(tokenizer) => {
            &&& made matches Ok(checked)
            &&& checked.inner() == tokenizer
            &&& checked.origin() == source
        },
        Err(reason) => made matches Err(why) && why@ == reason,
    }
}

/// Whether `made` is the tokenizer that the file with this text holds, or the
/// reason why there is none.
pub open spec fn is_made_of(text: Seq<char>, made: Result<CheckedTokenizer, String>) -> bool {
    match json::json_value(text) {
        Ok(source) => if tokenizer_file::can_load(source) {
            exists|outcome: Result<Tokenizer, Seq<char>>|
                may_load(source, outcome) && #[trigger] tells_loading(source, outcome, made)
        } else {
            made matches Err(why) && why@ == refusal()
        },
        Err(reason) => made matches Err(why) && why@ == reason,
    }
}

/// Whether the encoding of `text` may have this outcome: one that the tokenizer
/// may hand back, without its own special tokens around the text, or the
/// refusal where it is not called.
pub open spec fn may_yield(
    tokenizer: CheckedTokenizer,
    text: Seq<char>,
    outcome: Result<Seq<u32>, Seq<char>>,
) -> bool {
    if can_encode(tokenizer.origin(), tokenizer.inner()) {
        may_encode(tokenizer.inner(), text, false, outcome)
    } else {
        outcome == Err::<Seq<u32>, Seq<char>>(refusal())
    }
}

/// The outcome of the decoding of `ids`: that of the tokenizer, without special
/// tokens, or the refusal where it is not called.
pub open spec fn wording_of(tokenizer: CheckedTokenizer, ids: Seq<u32>) -> Result<
    Seq<char>,
    Seq<char>,
> {
    if soundness::can_decode(settings_of(tokenizer.inner())) {
        decoding(tokenizer.inner(), ids, true)
    } else {
        Err(refusal())
    }
}

impl CheckedTokenizer {
    /// The tokenizer itself.
    pub closed spec fn inner(self) -> Tokenizer {
        self.tokenizer
    }

    /// The value that it was made of.
    pub closed spec fn origin(self) -> Value {
        self.source@
    }

    #[verifier::type_invariant]
    spec fn is_checked(self) -> bool {
        &&& self.encodes == can_encode(self.source@, self.tokenizer)
        &&& self.decodes == soundness::can_decode(settings_of(self.tokenizer))
    }

    /// The tokenizer that the file with this text holds.
    pub fn from_json(text: &str) -> (made: Result<CheckedTokenizer, String>)
        ensures
            is_made_of(text@, made),
    {
        let source = match json::value_from_str(text) {
            Ok(value) => value,
            Err(reason) => return Err(reason),
        };
        if !tokenizer_file::check_loading(&source) {
            return Err("the tokenizer cannot carry out its settings".to_string());
        }
        let apart: bool = tokenizer_file::check_tokens_apart(&source);
        let ghost origin = source;
        let outcome = tokenizer_from_value(source);
        let ghost seen = loading_view(outcome);
        let made = match outcome {
            Ok(tokenizer) => {
                let settings = tokenizer_settings(&tokenizer);
                let encodes: bool = apart && soundness::check_encoding(&settings);
                let decodes: bool = soundness::check_decoding(&settings);
                Ok(CheckedTokenizer { tokenizer, source: Ghost(origin), encodes, decodes })
            },
            Err(reason) => Err(reason),
        };
        assert(tells_loading(origin, seen, made));
        made
    }

    /// Tells whether the tokenizer is called to encode a text.
    pub fn encodes(&self) -> (encodes: bool)
        ensures
            encodes == can_encode(self.origin(), self.inner()),
    {
        proof {
            use_type_invariant(self);
        }
        self.encodes
    }

    /// Tells whether the tokenizer is called to decode ids.
    pub fn decodes(&self) -> (decodes: bool)
        ensures
            decodes == soundness::can_decode(settings_of(self.inner())),
    {
        proof {
            use_type_invariant(self);
        }
        self.decodes
    }

    /// The ids of `text`, without the tokenizer's own special tokens around
    /// them, or the reason why there are none.
    pub fn try_encode(&self, text: &str) -> (outcome: Result<Vec<u32>, String>)
        ensures
            may_yield(*self, text@, encoding_view(outcome)),
    {
        if self.encodes() {
            assert(can_encode(self.origin(), self.tokenizer));
            tokenizer_encode(&self.tokenizer, text, false)
        } else {
            Err("the tokenizer cannot carry out its settings".to_string())
        }
    }

    /// The text of `ids`, without special tokens, or the reason why there is
    /// none.
    pub fn try_decode(&self, ids: &Vec<u32>) -> (outcome: Result<String, String>)
        ensures
            decoding_view(outcome) == wording_of(*self, ids@),
    {
        if self.decodes() {
            tokenizer_decode(&self.tokenizer, ids, true)
        } else {
            Err("the tokenizer cannot carry out its settings".to_string())
        }
    }
}

/// The ids of `text`, without the tokenizer's own special tokens around them.
pub fn encode(tokenizer: &CheckedTokenizer, text: &str) -> (result: Result<Vec<u32>, NodeError>)
    ensures
        exists|outcome: Result<Seq<u32>, Seq<char>>|
            may_yield(*tokenizer, text@, outcome) && #[trigger] tells_encoding(outcome, result),
{
    let outcome = tokenizer.try_encode(text);
    let ghost seen = encoding_view(outcome);
    let result = encoding_result(outcome);
    assert(tells_encoding(seen, result));
    result
}

/// The text of `ids`, without special tokens.
pub fn decode(tokenizer: &CheckedTokenizer, ids: &Vec<u32>) -> (result: Result<String, NodeError>)
    ensures
        tells_decoding(wording_of(*tokenizer, ids@), result),
{
    decoding_result(tokenizer.try_decode(ids))
}

/// A tokenizer that can carry out its settings is asked for the ids of a text
/// without special tokens around them, and for the text of ids without special
/// tokens in it; what it answers is what is told.
pub proof fn tokenizer_is_asked_without_special_tokens(
    tokenizer: CheckedTokenizer,
    text: Seq<char>,
    outcome: Result<Seq<u32>, Seq<char>>,
    ids: Seq<u32>,
)
    requires
        may_yield(tokenizer, text, outcome),
    ensures
        can_encode(tokenizer.origin(), tokenizer.inner()) ==> may_encode(
            tokenizer.inner(),
            text,
            false,
            outcome,
        ),
        !can_encode(tokenizer.origin(), tokenizer.inner()) ==> outcome is Err,
        soundness::can_decode(settings_of(tokenizer.inner())) ==> wording_of(tokenizer, ids)
            == decoding(tokenizer.inner(), ids, true),
        !soundness::can_decode(settings_of(tokenizer.inner())) ==> wording_of(tokenizer, ids) is Err,
{
}

/// Ids and texts are handed on as the tokenizer gave them, and its failures in
/// its own words.
pub proof fn answers_are_handed_on(
    encoded: Result<Seq<u32>, Seq<char>>,
    ids: Result<Vec<u32>, NodeError>,
    decoded: Result<Seq<char>, Seq<char>>,
    text: Result<String, NodeError>,
)
    requires
        tells_encoding(encoded, ids),
        tells_decoding(decoded, text),
    ensures
        encoded is Ok <==> ids is Ok,
        encoded matches Ok(list) ==> ids->Ok_0@ == list,
        encoded matches Err(reason) ==> ids->Err_0.wording()
            == "LFM25AudioOnnxNode: tokenization failed: "@ + reason,
        decoded is Ok <==> text is Ok,
        decoded matches Ok(words) ==> text->Ok_0@ == words,
        decoded matches Err(reason) ==> text->Err_0.wording()
            == "LFM25AudioOnnxNode: decode failed: "@ + reason,
{
}

} // verus!
