//! What the file of a tokenizer says of its vocabulary, and whether a tokenizer
//! can be made of it.

use crate::json;
use crate::soundness::{self, Stage, NESTING};
use crate::text;
use serde_json::Value;
use vstd::prelude::*;

verus! {

/// Up to which id a token of the model may be added again.
pub const MOST_ID: u64 = 0x7fff_ffff;

/// What may be said of an added token.
#[derive(Debug, Clone, Copy, PartialEq, Eq, Structural)]
pub enum TokenTrait {
    /// It is looked for in normalized text.
    Normalized,
    /// It takes the white space before it.
    StripsLeft,
    /// It takes the white space behind it.
    StripsRight,
    /// It is nothing but white space.
    Blank,
    /// It has an id beyond [`MOST_ID`] in the vocabulary of the model.
    HighId,
}

/// The id that the model has for `content`.
pub open spec fn model_id(source: Value, content: Seq<char>) -> Option<u64> {
    match json::json_member(source, "model"@) {
        Some(model) => match json::json_member(model, "vocab"@) {
            Some(vocab) => json::number_at(vocab, content),
            None => None,
        },
        None => None,
    }
}

fn find_model_id(source: &Value, content: &str) -> (id: Option<u64>)
    ensures
        id == model_id(*source, content@),
{
    match json::value_get(source, "model") {
        Some(model) => match json::value_get(model, "vocab") {
            Some(vocab) => json::member_number(vocab, content),
            None => None,
        },
        None => None,
    }
}

impl TokenTrait {
    /// Whether it can be said of an added token in the file `source`.
    pub open spec fn is_of(self, source: Value, token: Value) -> bool {
        match self {
            TokenTrait::Normalized => json::flag_at(token, "normalized"@) == Some(true),
            TokenTrait::StripsLeft => json::flag_at(token, "lstrip"@) == Some(true),
            TokenTrait::StripsRight => json::flag_at(token, "rstrip"@) == Some(true),
            TokenTrait::Blank => {
                &&& json::text_at(token, "content"@) matches Some(content)
                &&& text::is_blank(content)
            },
            TokenTrait::HighId => {
                &&& json::text_at(token, "content"@) matches Some(content)
                &&& model_id(source, content) matches Some(id)
                &&& id > MOST_ID
            },
        }
    }

    /// Whether it can be said of one of the added tokens in the file `source`.
    pub open spec fn occurs(self, source: Value) -> bool {
        match json::elements_at(source, "added_tokens"@) {
            Some(tokens) => self.is_among(source, tokens),
            None => false,
        }
    }

    /// Whether it can be said of one of `tokens`.
    pub open spec fn is_among(self, source: Value, tokens: Seq<Value>) -> bool {
        exists|i: int| 0 <= i < tokens.len() && #[trigger] self.is_of(source, tokens[i])
    }

    fn check_token(self, source: &Value, token: &Value) -> (found: bool)
        ensures
            found == self.is_of(*source, *token),
    {
        match self {
            TokenTrait::Normalized => is_set(token, "normalized"),
            TokenTrait::StripsLeft => is_set(token, "lstrip"),
            TokenTrait::StripsRight => is_set(token, "rstrip"),
            TokenTrait::Blank => match json::member_text(token, "content") {
                Some(content) => text::is_blank_text(content),
                None => false,
            },
            TokenTrait::HighId => match json::member_text(token, "content") {
                Some(content) => match find_model_id(source, content) {
                    Some(id) => id > MOST_ID,
                    None => false,
                },
                None => false,
            },
        }
    }

    /// Tells whether it can be said of one of the added tokens in the file
    /// `source`.
    pub fn check(self, source: &Value) -> (found: bool)
        ensures
            found == self.occurs(*source),
    {
        match json::member_elements(source, "added_tokens") {
            Some(tokens) => {
                for i in 0..tokens.len()
                    invariant
                        json::elements_at(*source, "added_tokens"@) == Some(tokens@),
                        forall|j: int| 0 <= j < i ==> !#[trigger] self.is_of(*source, tokens@[j]),
                {
                    if self.check_token(source, &tokens[i]) {
                        assert(self.is_among(*source, tokens@));
                        return true;
                    }
                }
                assert(!self.is_among(*source, tokens@));
                false
            },
            None => false,
        }
    }
}

fn is_set(token: &Value, key: &str) -> (set: bool)
    ensures
        set == (json::flag_at(*token, key@) == Some(true)),
{
    match json::member_flag(token, key) {
        Some(flag) => flag,
        None => false,
    }
}

/// Whether the member of the file called `key` is a stage as asked; where there
/// is none, it is.
pub open spec fn stage_fits(source: Value, key: Seq<char>, stage: Stage) -> bool {
    match json::json_member(source, key) {
        Some(value) => json::json_null(value) || stage.fits_throughout(value, NESTING as nat),
        None => true,
    }
}

fn check_stage(source: &Value, key: &str, stage: Stage) -> (fits: bool)
    ensures
        fits == stage_fits(*source, key@, stage),
{
    match json::value_get(source, key) {
        Some(value) => json::value_is_null(value) || stage.check_throughout(value, NESTING),
        None => true,
    }
}

/// Whether a prefix that marks the inside of words is left to the kind of model
/// that does not cut it off the parts of its merges.
pub open spec fn prefix_fits(source: Value) -> bool {
    match json::json_member(source, "model"@) {
        Some(model) => soundness::has_text_at(model, "continuing_subword_prefix"@)
            ==> soundness::is_kind(model, "WordPiece"@),
        None => true,
    }
}

fn check_prefix(source: &Value) -> (fits: bool)
    ensures
        fits == prefix_fits(*source),
{
    match json::value_get(source, "model") {
        Some(model) => !soundness::check_text_at(model, "continuing_subword_prefix")
            || soundness::has_kind(model, "WordPiece"),
        None => true,
    }
}

/// Whether a tokenizer can be made of the file. Its normalizer, pre-tokenizer
/// and decoder give their kinds, if any, as texts and look for no expression
/// with large counts; its normalizer works by no precompiled table, and leaves
/// something of every text where added tokens are normalized; its model cuts no
/// prefix off the parts of its merges; and the ids of its added tokens leave
/// room for more.
pub open spec fn can_load(source: Value) -> bool {
    &&& stage_fits(source, "normalizer"@, Stage::LoadableNormalizer)
    &&& stage_fits(source, "pre_tokenizer"@, Stage::LoadablePreTokenizer)
    &&& stage_fits(source, "decoder"@, Stage::LoadableDecoder)
    &&& TokenTrait::Normalized.occurs(source) ==> stage_fits(
        source,
        "normalizer"@,
        Stage::SparingNormalizer,
    )
    &&& prefix_fits(source)
    &&& !TokenTrait::HighId.occurs(source)
}

/// Tells whether a tokenizer can be made of the file.
pub fn check_loading(source: &Value) -> (sound: bool)
    ensures
        sound == can_load(*source),
{
    check_stage(source, "normalizer", Stage::LoadableNormalizer) && check_stage(
        source,
        "pre_tokenizer",
        Stage::LoadablePreTokenizer,
    ) && check_stage(source, "decoder", Stage::LoadableDecoder) && (!TokenTrait::Normalized.check(
        source,
    ) || check_stage(source, "normalizer", Stage::SparingNormalizer)) && check_prefix(source)
        && !TokenTrait::HighId.check(source)
}

/// Whether the added tokens of the file never take the same white space: some
/// are white space, some take more of it before them and some behind them, but
/// not all three.
pub open spec fn keeps_tokens_apart(source: Value) -> bool {
    ||| !TokenTrait::StripsLeft.occurs(source)
    ||| !TokenTrait::StripsRight.occurs(source)
    ||| !TokenTrait::Blank.occurs(source)
}

/// Tells whether the added tokens of the file never take the same white space.
pub fn check_tokens_apart(source: &Value) -> (apart: bool)
    ensures
        apart == keeps_tokens_apart(*source),
{
    !TokenTrait::StripsLeft.check(source) || !TokenTrait::StripsRight.check(source)
        || !TokenTrait::Blank.check(source)
}

/// A file is loaded that leaves its stages to the tokenizer, adds no tokens, and
/// marks no inside of words by a prefix.
pub proof fn plain_files_are_loaded(source: Value, model: Value)
    requires
        json::json_member(source, "normalizer"@) matches Some(value) ==> json::json_null(value),
        json::json_member(source, "pre_tokenizer"@) matches Some(value) ==> json::json_null(value),
        json::json_member(source, "decoder"@) matches Some(value) ==> json::json_null(value),
        json::elements_at(source, "added_tokens"@) matches Some(tokens) ==> tokens.len() == 0,
        json::json_member(source, "model"@) == Some(model),
        json::text_at(model, "continuing_subword_prefix"@) matches Some(prefix) ==> prefix.len()
            == 0,
    ensures
        can_load(source),
        keeps_tokens_apart(source),
{
    if let Some(tokens) = json::elements_at(source, "added_tokens"@) {
        assert(!TokenTrait::Normalized.is_among(source, tokens));
        assert(!TokenTrait::HighId.is_among(source, tokens));
        assert(!TokenTrait::StripsLeft.is_among(source, tokens));
    }
}

/// Added tokens are told by their members: whether they are normalized, take the
/// white space on their left or on their right, or are white space themselves.
pub proof fn tokens_are_told_by_their_members(source: Value, token: Value, content: Seq<char>)
    requires
        json::text_at(token, "content"@) == Some(content),
    ensures
        TokenTrait::Normalized.is_of(source, token) <==> json::flag_at(token, "normalized"@)
            == Some(true),
        TokenTrait::StripsLeft.is_of(source, token) <==> json::flag_at(token, "lstrip"@) == Some(
            true,
        ),
        TokenTrait::StripsRight.is_of(source, token) <==> json::flag_at(token, "rstrip"@) == Some(
            true,
        ),
        TokenTrait::Blank.is_of(source, token) <==> text::is_blank(content),
{
}

} // verus!
