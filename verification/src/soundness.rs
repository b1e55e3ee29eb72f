//! Which settings of a tokenizer its encoding and decoding can carry out.
//!
//! The settings are read as JSON: a list of the truncation, the padding, the
//! normalizer, the pre-tokenizer, the post-processor and the decoder, in this
//! order. A stage of the tokenizer may be a sequence of stages, each of which
//! may be one again.

use crate::json;
use crate::text;
use serde_json::Value;
use vstd::prelude::*;

verus! {

/// The number of settings.
pub const SETTINGS: usize = 6;

/// Up to how many levels a stage of a tokenizer may be nested.
pub const NESTING: usize = 64;

/// Up to how many tokens a text may be padded to, or to a multiple of.
pub const MOST_PADDING: u64 = 1_048_576;

/// Up to how many characters a regular expression may have.
pub const MOST_CHARS: usize = 4_000;

/// Up to how many digits the counts in a regular expression may have in all.
pub const MOST_DIGITS: usize = 6;

/// What is asked of a stage of a tokenizer.
#[derive(Debug, Clone, Copy, PartialEq, Eq, Structural)]
pub enum Stage {
    /// A normalizer that gives its kind, if any, as a text, works by no
    /// precompiled table, and looks for no expression with large counts.
    LoadableNormalizer,
    /// A pre-tokenizer that gives its kind, if any, as a text, and looks for no
    /// expression with large counts.
    LoadablePreTokenizer,
    /// A decoder that gives its kind, if any, as a text, and looks for no
    /// expression with large counts.
    LoadableDecoder,
    /// A normalizer that leaves something of every text.
    SparingNormalizer,
    /// A normalizer that works by no precompiled table, and inserts nothing
    /// that stands for no part of the text.
    Normalizer,
    /// A pre-tokenizer that cuts no text into pieces of no length, and by no
    /// pattern that looks back at its own match.
    PreTokenizer,
    /// A post-processor that lays every text out once.
    PostProcessor,
    /// A decoder that takes every list of tokens.
    Decoder,
}

/// Whether `value` describes a stage of the kind called `kind`.
pub open spec fn is_kind(value: Value, kind: Seq<char>) -> bool {
    json::text_at(value, "type"@) == Some(kind)
}

/// Tells whether `value` describes a stage of the kind called `kind`.
pub fn has_kind(value: &Value, kind: &str) -> (same: bool)
    ensures
        same == is_kind(*value, kind@),
{
    match json::member_text(value, "type") {
        Some(name) => text::same_text(name, kind),
        None => false,
    }
}

/// Whether `value` gives its kind, if any, as a text: it is no list, and its
/// type, where there is one, is a text.
pub open spec fn names_kind(value: Value) -> bool {
    &&& json::json_elements(value) is None
    &&& json::json_member(value, "type"@) is Some ==> json::text_at(value, "type"@) is Some
}

fn check_names_kind(value: &Value) -> (named: bool)
    ensures
        named == names_kind(*value),
{
    json::value_as_array(value).is_none() && (json::value_get(value, "type").is_none()
        || json::member_text(value, "type").is_some())
}

/// Whether a piece of a template stands for a text.
pub open spec fn is_text_piece(piece: Value) -> bool {
    json::json_member(piece, "Sequence"@) is Some
}

/// Whether a piece of a template stands for the first text.
pub open spec fn is_first_text(piece: Value) -> bool {
    match json::json_member(piece, "Sequence"@) {
        Some(sequence) => json::text_at(sequence, "id"@) == Some("A"@),
        None => false,
    }
}

/// Whether a template holds the first text once, and no other text.
pub open spec fn lays_out_once(pieces: Seq<Value>) -> bool {
    exists|at: int|
        {
            &&& 0 <= at < pieces.len()
            &&& #[trigger] is_first_text(pieces[at])
            &&& forall|i: int|
                0 <= i < pieces.len() && i != at ==> !is_text_piece(#[trigger] pieces[i])
        }
}

/// Whether the member called `key` is a text that is not empty.
pub open spec fn has_text_at(value: Value, key: Seq<char>) -> bool {
    json::text_at(value, key) matches Some(found) && found.len() > 0
}

/// Whether `value` describes a normalizer that leaves something of every text.
pub open spec fn is_sparing(value: Value) -> bool {
    ||| is_kind(value, "NFC"@)
    ||| is_kind(value, "NFD"@)
    ||| is_kind(value, "NFKC"@)
    ||| is_kind(value, "NFKD"@)
    ||| is_kind(value, "Lowercase"@)
    ||| is_kind(value, "ByteLevel"@)
    ||| is_kind(value, "Prepend"@) && has_text_at(value, "prepend"@)
}

/// Whether the pattern of `value` is a text that is looked for as it stands,
/// and is not empty.
pub open spec fn looks_for_text(value: Value) -> bool {
    match json::json_member(value, "pattern"@) {
        Some(pattern) => has_text_at(pattern, "String"@),
        None => false,
    }
}

/// Whether `c` behind a backslash refers to a group, or moves the beginning of
/// the match.
pub open spec fn looks_back(c: char) -> bool {
    '0' <= c <= '9' || c == 'k' || c == 'K'
}

/// Whether a regular expression neither refers to its own groups nor moves the
/// beginning of its match. Where it may do so, it is taken to.
pub open spec fn is_tame(expression: Seq<char>) -> bool {
    &&& forall|i: int|
        0 <= i < expression.len() - 1 && expression[i] == '\\' ==> !looks_back(
            #[trigger] expression[i + 1],
        )
    &&& forall|i: int|
        0 <= i < expression.len() - 2 && expression[i] == '?' && expression[i + 1] == 'P'
            ==> #[trigger] expression[i + 2] != '='
}

/// Whether the pattern of `value`, where it is a regular expression, is tame.
pub open spec fn has_tame_pattern(value: Value) -> bool {
    match json::json_member(value, "pattern"@) {
        Some(pattern) => json::text_at(pattern, "Regex"@) matches Some(expression) ==> is_tame(
            expression,
        ),
        None => true,
    }
}

/// Whether `expression` ends behind a brace that is opened and not closed.
pub open spec fn ends_in_braces(expression: Seq<char>) -> bool
    decreases expression.len(),
{
    &&& expression.len() > 0
    &&& expression.last() == '{' || (expression.last() != '}' && ends_in_braces(
        expression.drop_last(),
    ))
}

/// The number of digits that stand between braces.
pub open spec fn digits_in_braces(expression: Seq<char>) -> nat
    decreases expression.len(),
{
    if expression.len() == 0 {
        0
    } else {
        let before = expression.drop_last();
        if '0' <= expression.last() <= '9' && ends_in_braces(before) {
            digits_in_braces(before) + 1
        } else {
            digits_in_braces(before)
        }
    }
}

/// Whether a comment may stand between braces, and hide a closing one.
pub open spec fn remarks_in_braces(expression: Seq<char>) -> bool {
    exists|i: int|
        0 <= i < expression.len() && #[trigger] expression[i] == '#' && ends_in_braces(
            expression.take(i),
        )
}

/// Whether the least length of what a regular expression matches can be
/// counted: the expression is no longer than [`MOST_CHARS`], and the counts by
/// which its parts are repeated have no more than [`MOST_DIGITS`] digits. What
/// may be a count is taken for one.
pub open spec fn is_modest(expression: Seq<char>) -> bool {
    &&& expression.len() <= MOST_CHARS
    &&& digits_in_braces(expression) <= MOST_DIGITS
    &&& !remarks_in_braces(expression)
}

/// Whether the pattern of `value`, where it is a regular expression, is modest.
pub open spec fn has_modest_pattern(value: Value) -> bool {
    match json::json_member(value, "pattern"@) {
        Some(pattern) => json::text_at(pattern, "Regex"@) matches Some(expression) ==> is_modest(
            expression,
        ),
        None => true,
    }
}

impl Stage {
    /// The member that lists the stages of a sequence.
    pub open spec fn list(self) -> Seq<char> {
        match self {
            Stage::LoadableNormalizer => "normalizers"@,
            Stage::LoadablePreTokenizer => "pretokenizers"@,
            Stage::LoadableDecoder => "decoders"@,
            Stage::SparingNormalizer => "normalizers"@,
            Stage::Normalizer => "normalizers"@,
            Stage::PreTokenizer => "pretokenizers"@,
            Stage::PostProcessor => "processors"@,
            Stage::Decoder => "decoders"@,
        }
    }

    /// Whether a stage that is no sequence is as asked.
    pub open spec fn fits(self, value: Value) -> bool {
        match self {
            Stage::LoadableNormalizer => {
                &&& names_kind(value)
                &&& has_modest_pattern(value)
                &&& !is_kind(value, "Precompiled"@)
            },
            Stage::LoadablePreTokenizer => names_kind(value) && has_modest_pattern(value),
            Stage::LoadableDecoder => names_kind(value) && has_modest_pattern(value),
            Stage::SparingNormalizer => is_sparing(value),
            Stage::Normalizer => {
                &&& !is_kind(value, "Precompiled"@)
                &&& is_kind(value, "Replace"@) ==> looks_for_text(value)
                &&& is_kind(value, "Prepend"@) ==> has_text_at(value, "prepend"@)
            },
            Stage::PreTokenizer => {
                &&& is_kind(value, "FixedLength"@) ==> json::number_at(value, "length"@) != Some(
                    0u64,
                )
                &&& is_kind(value, "Split"@) ==> has_tame_pattern(value)
            },
            Stage::PostProcessor => is_kind(value, "TemplateProcessing"@) ==> {
                &&& json::elements_at(value, "single"@) matches Some(pieces)
                &&& lays_out_once(pieces)
            },
            Stage::Decoder => {
                &&& !is_kind(value, "BPEDecoder"@)
                &&& is_kind(value, "Strip"@) ==> json::number_at(value, "stop"@) == Some(0u64)
                &&& is_kind(value, "Replace"@) ==> has_tame_pattern(value)
            },
        }
    }

    /// Whether a stage may have a list of stages. One that is yet to be loaded
    /// need not turn out to be a sequence, and has to be as asked itself; any
    /// other is a sequence.
    pub open spec fn spans(self, value: Value) -> bool {
        match self {
            Stage::LoadableNormalizer => self.fits(value),
            Stage::LoadablePreTokenizer => self.fits(value),
            Stage::LoadableDecoder => self.fits(value),
            _ => is_kind(value, "Sequence"@),
        }
    }

    /// Whether a stage, nested to `depth` levels at most, is as asked in all
    /// its parts.
    pub open spec fn fits_throughout(self, value: Value, depth: nat) -> bool
        decreases depth,
    {
        match json::elements_at(value, self.list()) {
            Some(parts) => depth > 0 && self.spans(value) && forall|i: int|
                0 <= i < parts.len() ==> self.fits_throughout(
                    #[trigger] parts[i],
                    (depth - 1) as nat,
                ),
            None => self.fits(value),
        }
    }

    fn list_name(self) -> (name: &'static str)
        ensures
            name@ == self.list(),
    {
        match self {
            Stage::LoadableNormalizer => "normalizers",
            Stage::LoadablePreTokenizer => "pretokenizers",
            Stage::LoadableDecoder => "decoders",
            Stage::SparingNormalizer => "normalizers",
            Stage::Normalizer => "normalizers",
            Stage::PreTokenizer => "pretokenizers",
            Stage::PostProcessor => "processors",
            Stage::Decoder => "decoders",
        }
    }

    fn check(self, value: &Value) -> (fits: bool)
        ensures
            fits == self.fits(*value),
    {
        match self {
            Stage::LoadableNormalizer => check_names_kind(value) && check_modest_pattern(value)
                && !has_kind(value, "Precompiled"),
            Stage::LoadablePreTokenizer => check_names_kind(value) && check_modest_pattern(value),
            Stage::LoadableDecoder => check_names_kind(value) && check_modest_pattern(value),
            Stage::SparingNormalizer => check_sparing(value),
            Stage::Normalizer => {
                if has_kind(value, "Precompiled") {
                    false
                } else {
                    (!has_kind(value, "Replace") || check_looks_for_text(value)) && (!has_kind(
                        value,
                        "Prepend",
                    ) || check_text_at(value, "prepend"))
                }
            },
            Stage::PreTokenizer => {
                let cuts: bool = if has_kind(value, "FixedLength") {
                    match json::member_number(value, "length") {
                        Some(length) => length != 0,
                        None => true,
                    }
                } else {
                    true
                };
                cuts && (!has_kind(value, "Split") || check_pattern(value))
            },
            Stage::PostProcessor => {
                if has_kind(value, "TemplateProcessing") {
                    match json::member_elements(value, "single") {
                        Some(pieces) => check_layout(pieces),
                        None => false,
                    }
                } else {
                    true
                }
            },
            Stage::Decoder => {
                if has_kind(value, "BPEDecoder") {
                    false
                } else {
                    let strips: bool = if has_kind(value, "Strip") {
                        match json::member_number(value, "stop") {
                            Some(stop) => stop == 0,
                            None => false,
                        }
                    } else {
                        true
                    };
                    strips && (!has_kind(value, "Replace") || check_pattern(value))
                }
            },
        }
    }

    fn check_spans(self, value: &Value) -> (spans: bool)
        ensures
            spans == self.spans(*value),
    {
        match self {
            Stage::LoadableNormalizer => self.check(value),
            Stage::LoadablePreTokenizer => self.check(value),
            Stage::LoadableDecoder => self.check(value),
            _ => has_kind(value, "Sequence"),
        }
    }

    /// Tells whether a stage, nested to `depth` levels at most, is as asked in
    /// all its parts.
    pub fn check_throughout(self, value: &Value, depth: usize) -> (fits: bool)
        ensures
            fits == self.fits_throughout(*value, depth as nat),
        decreases depth,
    {
        match json::member_elements(value, self.list_name()) {
            Some(parts) => {
                if depth == 0 || !self.check_spans(value) {
                    return false;
                }
                for i in 0..parts.len()
                    invariant
                        depth > 0,
                        self.spans(*value),
                        json::elements_at(*value, self.list()) == Some(parts@),
                        forall|j: int|
                            0 <= j < i ==> self.fits_throughout(
                                #[trigger] parts@[j],
                                (depth - 1) as nat,
                            ),
                {
                    if !self.check_throughout(&parts[i], depth - 1) {
                        proof {
                            part_spoils_whole(self, *value, parts@, i as int, depth as nat);
                        }
                        return false;
                    }
                }
                true
            },
            None => self.check(value),
        }
    }
}

/// A stage does not fit where one of its parts does not.
proof fn part_spoils_whole(stage: Stage, value: Value, parts: Seq<Value>, at: int, depth: nat)
    requires
        json::elements_at(value, stage.list()) == Some(parts),
        0 <= at < parts.len(),
        depth > 0,
        !stage.fits_throughout(parts[at], (depth - 1) as nat),
    ensures
        !stage.fits_throughout(value, depth),
{
    if stage.fits_throughout(value, depth) {
        let parts = json::elements_at(value, stage.list())->0;
        assert(stage.fits_throughout(parts[at], (depth - 1) as nat));
    }
}

fn check_sparing(value: &Value) -> (sparing: bool)
    ensures
        sparing == is_sparing(*value),
{
    match json::member_text(value, "type") {
        Some(name) => text::same_text(name, "NFC") || text::same_text(name, "NFD")
            || text::same_text(name, "NFKC") || text::same_text(name, "NFKD") || text::same_text(
            name,
            "Lowercase",
        ) || text::same_text(name, "ByteLevel") || (text::same_text(name, "Prepend")
            && check_text_at(value, "prepend")),
        None => false,
    }
}

/// Tells whether the member called `key` is a text that is not empty.
pub fn check_text_at(value: &Value, key: &str) -> (found: bool)
    ensures
        found == has_text_at(*value, key@),
{
    match json::member_text(value, key) {
        Some(found) => text::chars_of(found).len() > 0,
        None => false,
    }
}

fn check_looks_for_text(value: &Value) -> (found: bool)
    ensures
        found == looks_for_text(*value),
{
    match json::value_get(value, "pattern") {
        Some(pattern) => check_text_at(pattern, "String"),
        None => false,
    }
}

fn check_pattern(value: &Value) -> (tame: bool)
    ensures
        tame == has_tame_pattern(*value),
{
    match json::value_get(value, "pattern") {
        Some(pattern) => match json::member_text(pattern, "Regex") {
            Some(expression) => check_tame(expression),
            None => true,
        },
        None => true,
    }
}

/// Tells whether a regular expression neither refers to its own groups nor
/// moves the beginning of its match.
pub fn check_tame(expression: &str) -> (tame: bool)
    ensures
        tame == is_tame(expression@),
{
    let chars = text::chars_of(expression);
    for i in 0..chars.len()
        invariant
            chars@ == expression@,
            forall|j: int|
                0 <= j < i - 1 && chars@[j] == '\\' ==> !looks_back(#[trigger] chars@[j + 1]),
            forall|j: int|
                0 <= j < i - 2 && chars@[j] == '?' && chars@[j + 1] == 'P' ==> #[trigger] chars@[j
                    + 2] != '=',
    {
        let c: char = chars[i];
        if i >= 1 && chars[i - 1] == '\\' && (('0' <= c && c <= '9') || c == 'k' || c == 'K') {
            proof {
                let at: int = i - 1;
                assert(looks_back(expression@[at + 1]));
            }
            return false;
        }
        if i >= 2 && chars[i - 2] == '?' && chars[i - 1] == 'P' && c == '=' {
            proof {
                let at: int = i - 2;
                assert(expression@[at + 2] == '=');
            }
            return false;
        }
    }
    true
}

fn check_modest_pattern(value: &Value) -> (modest: bool)
    ensures
        modest == has_modest_pattern(*value),
{
    match json::value_get(value, "pattern") {
        Some(pattern) => match json::member_text(pattern, "Regex") {
            Some(expression) => check_modest(expression),
            None => true,
        },
        None => true,
    }
}

/// Tells whether the least length of what a regular expression matches can be
/// counted.
pub fn check_modest(expression: &str) -> (modest: bool)
    ensures
        modest == is_modest(expression@),
{
    let chars = text::chars_of(expression);
    let mut inside: bool = false;
    let mut digits: usize = 0;
    for i in 0..chars.len()
        invariant
            chars@ == expression@,
            inside == ends_in_braces(chars@.take(i as int)),
            digits == digits_in_braces(chars@.take(i as int)),
            digits <= i,
            forall|j: int|
                0 <= j < i && #[trigger] chars@[j] == '#' ==> !ends_in_braces(chars@.take(j)),
    {
        let c: char = chars[i];
        assert(chars@.take(i + 1).drop_last() == chars@.take(i as int));
        if inside && c == '#' {
            assert(expression@[i as int] == '#');
            return false;
        }
        if inside && '0' <= c && c <= '9' {
            digits = digits + 1;
        }
        inside = c == '{' || (inside && c != '}');
    }
    assert(chars@.take(chars@.len() as int) == expression@);
    chars.len() <= MOST_CHARS && digits <= MOST_DIGITS
}

fn check_layout(pieces: &Vec<Value>) -> (once: bool)
    ensures
        once == lays_out_once(pieces@),
{
    let mut found: Option<usize> = None;
    for i in 0..pieces.len()
        invariant
            match found {
                Some(at) => {
                    &&& at < i
                    &&& is_first_text(pieces@[at as int])
                    &&& forall|j: int|
                        0 <= j < i && j != at ==> !is_text_piece(#[trigger] pieces@[j])
                },
                None => forall|j: int| 0 <= j < i ==> !is_text_piece(#[trigger] pieces@[j]),
            },
    {
        if let Some(sequence) = json::value_get(&pieces[i], "Sequence") {
            assert(is_text_piece(pieces@[i as int]));
            let first: bool = match json::member_text(sequence, "id") {
                Some(id) => text::same_text(id, "A"),
                None => false,
            };
            if !first || found.is_some() {
                return false;
            }
            found = Some(i);
        }
    }
    if let Some(at) = found {
        assert(is_first_text(pieces@[at as int]));
        true
    } else {
        false
    }
}

/// Whether a truncation leaves room for more than its overlap.
pub open spec fn truncates_soundly(value: Value) -> bool {
    match (json::number_at(value, "max_length"@), json::number_at(value, "stride"@)) {
        (Some(length), Some(stride)) => length == 0 || stride < length,
        _ => true,
    }
}

fn check_truncation(value: &Value) -> (sound: bool)
    ensures
        sound == truncates_soundly(*value),
{
    match (json::member_number(value, "max_length"), json::member_number(value, "stride")) {
        (Some(length), Some(stride)) => length == 0 || stride < length,
        _ => true,
    }
}

/// Whether `count`, where there is one, is a padding that can be made.
pub open spec fn within_padding(count: Option<u64>) -> bool {
    match count {
        Some(tokens) => tokens <= MOST_PADDING,
        None => true,
    }
}

/// Whether a padding can be made.
pub open spec fn pads_soundly(value: Value) -> bool {
    &&& within_padding(json::number_at(value, "pad_to_multiple_of"@))
    &&& match json::json_member(value, "strategy"@) {
        Some(strategy) => within_padding(json::number_at(strategy, "Fixed"@)),
        None => true,
    }
}

fn check_count(count: Option<u64>) -> (within: bool)
    ensures
        within == within_padding(count),
{
    match count {
        Some(tokens) => tokens <= MOST_PADDING,
        None => true,
    }
}

fn check_padding(value: &Value) -> (sound: bool)
    ensures
        sound == pads_soundly(*value),
{
    let fixed: bool = match json::value_get(value, "strategy") {
        Some(strategy) => check_count(json::member_number(strategy, "Fixed")),
        None => true,
    };
    fixed && check_count(json::member_number(value, "pad_to_multiple_of"))
}

/// Whether a tokenizer with these settings can encode every text. Its
/// truncation leaves room for more than its overlap; its padding can be made;
/// its normalizer keeps track of what it changes; its pre-tokenizer cuts into
/// no pieces without length, and by no pattern that looks back at its own
/// match; and its post-processor lays the text out once.
pub open spec fn can_encode(settings: Option<Value>) -> bool {
    &&& settings matches Some(value)
    &&& json::json_elements(value) matches Some(parts)
    &&& parts.len() == SETTINGS
    &&& truncates_soundly(parts[0])
    &&& pads_soundly(parts[1])
    &&& Stage::Normalizer.fits_throughout(parts[2], NESTING as nat)
    &&& Stage::PreTokenizer.fits_throughout(parts[3], NESTING as nat)
    &&& Stage::PostProcessor.fits_throughout(parts[4], NESTING as nat)
}

/// Whether a tokenizer with these settings can decode every list of tokens: its
/// decoder takes one of no tokens, and tokens of no length, and looks for no
/// pattern that looks back at its own match.
pub open spec fn can_decode(settings: Option<Value>) -> bool {
    &&& settings matches Some(value)
    &&& json::json_elements(value) matches Some(parts)
    &&& parts.len() == SETTINGS
    &&& Stage::Decoder.fits_throughout(parts[5], NESTING as nat)
}

/// Tells whether a tokenizer with these settings can encode every text.
pub fn check_encoding(settings: &Option<Value>) -> (sound: bool)
    ensures
        sound == can_encode(*settings),
{
    match settings {
        Some(value) => match json::value_as_array(value) {
            Some(parts) => parts.len() == SETTINGS && check_truncation(&parts[0]) && check_padding(
                &parts[1],
            ) && Stage::Normalizer.check_throughout(&parts[2], NESTING)
                && Stage::PreTokenizer.check_throughout(&parts[3], NESTING)
                && Stage::PostProcessor.check_throughout(&parts[4], NESTING),
            None => false,
        },
        None => false,
    }
}

/// Tells whether a tokenizer with these settings can decode every list of
/// tokens.
pub fn check_decoding(settings: &Option<Value>) -> (sound: bool)
    ensures
        sound == can_decode(*settings),
{
    match settings {
        Some(value) => match json::value_as_array(value) {
            Some(parts) => parts.len() == SETTINGS && Stage::Decoder.check_throughout(
                &parts[5],
                NESTING,
            ),
            None => false,
        },
        None => false,
    }
}

/// What an expression may hold: one without a backslash and without `?P=` looks
/// back at nothing, and one of up to 4000 characters without an opening brace
/// has no counts at all.
pub proof fn plain_expressions_are_taken(expression: Seq<char>)
    ensures
        (forall|i: int| 0 <= i < expression.len() ==> #[trigger] expression[i] != '\\' && expression[i]
            != '?') ==> is_tame(expression),
        expression.len() <= 4000 && (forall|i: int|
            0 <= i < expression.len() ==> #[trigger] expression[i] != '{') ==> is_modest(expression),
{
    if forall|i: int| 0 <= i < expression.len() ==> #[trigger] expression[i] != '{' {
        without_braces(expression);
        assert forall|i: int| 0 <= i < expression.len() implies !(#[trigger] expression[i] == '#'
            && ends_in_braces(expression.take(i))) by {
            without_braces(expression.take(i));
        }
    }
}

proof fn without_braces(expression: Seq<char>)
    requires
        forall|i: int| 0 <= i < expression.len() ==> #[trigger] expression[i] != '{',
    ensures
        !ends_in_braces(expression),
        digits_in_braces(expression) == 0,
    decreases expression.len(),
{
    if expression.len() > 0 {
        let before = expression.drop_last();
        assert forall|i: int| 0 <= i < before.len() implies #[trigger] before[i] != '{' by {
            assert(before[i] == expression[i]);
        }
        assert(expression[expression.len() - 1] != '{');
        without_braces(before);
    }
}

/// Stages are carried out by their kind. Every normalizer is that is neither
/// precompiled nor replaces or prepends text, and none that is precompiled;
/// every pre-tokenizer that does not cut into pieces of a fixed length or by an
/// expression that looks back; every post-processor that is no template; and
/// every decoder that is neither of the BPE kind nor strips or replaces text,
/// and none of the BPE kind.
pub proof fn other_stages_are_carried_out(value: Value, kind: Seq<char>)
    requires
        json::text_at(value, "type"@) == Some(kind),
    ensures
        kind != "Precompiled"@ && kind != "Replace"@ && kind != "Prepend"@
            ==> Stage::Normalizer.fits(value),
        kind != "FixedLength"@ && kind != "Split"@ ==> Stage::PreTokenizer.fits(value),
        kind == "Split"@ && has_tame_pattern(value) && kind != "FixedLength"@
            ==> Stage::PreTokenizer.fits(value),
        kind != "TemplateProcessing"@ ==> Stage::PostProcessor.fits(value),
        kind != "BPEDecoder"@ && kind != "Strip"@ && kind != "Replace"@ ==> Stage::Decoder.fits(
            value,
        ),
        kind == "Precompiled"@ ==> !Stage::Normalizer.fits(value),
        kind == "BPEDecoder"@ ==> !Stage::Decoder.fits(value),
{
}

} // verus!
