use lfm25_audio_onnx::config::{LFM25AudioMode, LFM25AudioOnnxConfig};
use lfm25_audio_onnx::error::NodeError;
use lfm25_audio_onnx::prompt::{start_audio_turn, start_text_turn};
use lfm25_audio_onnx::soundness::{check_modest, check_tame};
use lfm25_audio_onnx::tokenizer::{decode, encode, CheckedTokenizer};
use lfm25_audio_onnx::turn::{Turn, TurnRequest};

const REFUSAL: &str = "the tokenizer cannot carry out its settings";

/// The file of a tokenizer that splits at white space and knows the letters
/// from a to d, with some of its settings changed.
fn file(changes: &[(&str, &str)]) -> String {
    let plain = [
        ("version", "\"1.0\""),
        ("truncation", "null"),
        ("padding", "null"),
        ("added_tokens", "[]"),
        ("normalizer", "null"),
        ("pre_tokenizer", "{\"type\":\"WhitespaceSplit\"}"),
        ("post_processor", "null"),
        ("decoder", "null"),
        (
            "model",
            "{\"type\":\"WordLevel\",\"unk_token\":\"[UNK]\",\
             \"vocab\":{\"[UNK]\":0,\"a\":1,\"b\":2,\"c\":3,\"d\":4,\"  a \":5}}",
        ),
    ];
    let members: Vec<String> = plain
        .iter()
        .map(|(name, value)| {
            let value = changes.iter().find(|(key, _)| key == name).map_or(*value, |(_, v)| *v);
            format!("\"{name}\":{value}")
        })
        .collect();
    format!("{{{}}}", members.join(","))
}

/// The tokenizer of such a file.
fn changed(changes: &[(&str, &str)]) -> CheckedTokenizer {
    CheckedTokenizer::from_json(&file(changes)).unwrap()
}

fn refuses_file(changes: &[(&str, &str)]) -> bool {
    matches!(CheckedTokenizer::from_json(&file(changes)), Err(reason) if reason == REFUSAL)
}

fn refuses_text(changes: &[(&str, &str)]) -> bool {
    let tokenizer = changed(changes);
    let refused = matches!(
        encode(&tokenizer, "a b c"),
        Err(NodeError::Tokenization(reason)) if reason == REFUSAL
    );
    assert_eq!(refused, !tokenizer.encodes());
    refused
}

fn refuses_tokens(changes: &[(&str, &str)]) -> bool {
    let tokenizer = changed(changes);
    let refused = matches!(
        decode(&tokenizer, &vec![1, 2]),
        Err(NodeError::Decoding(reason)) if reason == REFUSAL
    );
    assert_eq!(refused, !tokenizer.decodes());
    refused
}

#[test]
fn plain_settings_are_carried_out() {
    let tokenizer = changed(&[]);
    assert!(tokenizer.encodes() && tokenizer.decodes());
    assert_eq!(encode(&tokenizer, "a b c").unwrap(), vec![1, 2, 3]);
    assert_eq!(decode(&tokenizer, &vec![1, 2]).unwrap(), "a b");
}

fn truncation(length: u64, stride: u64) -> String {
    format!(
        "{{\"direction\":\"Right\",\"max_length\":{length},\"strategy\":\"LongestFirst\",\
         \"stride\":{stride}}}"
    )
}

#[test]
fn truncations_leave_room_for_more_than_their_overlap() {
    assert!(refuses_text(&[("truncation", &truncation(2, 2))]));
    assert!(refuses_text(&[("truncation", &truncation(2, 7))]));
    let tokenizer = changed(&[("truncation", &truncation(2, 1))]);
    assert_eq!(encode(&tokenizer, "a b c").unwrap(), vec![1, 2]);
    let tokenizer = changed(&[("truncation", &truncation(0, 3))]);
    assert_eq!(encode(&tokenizer, "a b c").unwrap(), Vec::<u32>::new());
}

fn padding(strategy: &str, multiple: &str) -> String {
    format!(
        "{{\"strategy\":{strategy},\"direction\":\"Right\",\"pad_to_multiple_of\":{multiple},\
         \"pad_id\":4,\"pad_type_id\":0,\"pad_token\":\"d\"}}"
    )
}

#[test]
fn paddings_are_made_where_they_can_be() {
    let tokenizer = changed(&[("padding", &padding("{\"Fixed\":5}", "null"))]);
    assert_eq!(encode(&tokenizer, "a b c").unwrap(), vec![1, 2, 3, 4, 4]);
    let tokenizer = changed(&[("padding", &padding("\"BatchLongest\"", "2"))]);
    assert_eq!(encode(&tokenizer, "a b c").unwrap(), vec![1, 2, 3, 4]);
    assert!(refuses_text(&[("padding", &padding("{\"Fixed\":18446744073709551615}", "null"))]));
    assert!(refuses_text(&[("padding", &padding("\"BatchLongest\"", "18446744073709551615"))]));
}

#[test]
fn pieces_have_a_length() {
    assert!(refuses_text(&[("pre_tokenizer", "{\"type\":\"FixedLength\",\"length\":0}")]));
    let tokenizer = changed(&[("pre_tokenizer", "{\"type\":\"FixedLength\",\"length\":1}")]);
    assert_eq!(encode(&tokenizer, "ab").unwrap(), vec![1, 2]);
    let nested = "{\"type\":\"Sequence\",\"pretokenizers\":[{\"type\":\"WhitespaceSplit\"},\
                  {\"type\":\"FixedLength\",\"length\":0}]}";
    assert!(refuses_text(&[("pre_tokenizer", nested)]));
}

fn template(single: &str) -> String {
    format!(
        "{{\"type\":\"TemplateProcessing\",\"single\":[{single}],\
         \"pair\":[{{\"Sequence\":{{\"id\":\"A\",\"type_id\":0}}}},\
         {{\"Sequence\":{{\"id\":\"B\",\"type_id\":1}}}}],\"special_tokens\":{{}}}}"
    )
}

#[test]
fn templates_lay_the_text_out_once() {
    let first = "{\"Sequence\":{\"id\":\"A\",\"type_id\":0}}";
    let second = "{\"Sequence\":{\"id\":\"B\",\"type_id\":0}}";
    let tokenizer = changed(&[("post_processor", &template(first))]);
    assert_eq!(encode(&tokenizer, "a b c").unwrap(), vec![1, 2, 3]);
    for single in [second.to_string(), format!("{first},{second}"), format!("{first},{first}")] {
        assert!(refuses_text(&[("post_processor", &template(&single))]));
    }
    let nested = format!("{{\"type\":\"Sequence\",\"processors\":[{}]}}", template(second));
    assert!(refuses_text(&[("post_processor", &nested)]));
}

#[test]
fn normalizers_leave_added_tokens_something() {
    let token = "[{\"id\":5,\"content\":\"  a \",\"single_word\":false,\"lstrip\":false,\
                 \"rstrip\":false,\"normalized\":true,\"special\":false}]";
    let strip = "{\"type\":\"Strip\",\"strip_left\":true,\"strip_right\":true}";
    assert!(refuses_file(&[("added_tokens", token), ("normalizer", strip)]));
    let nested = format!("{{\"type\":\"Sequence\",\"normalizers\":[{strip}]}}");
    assert!(refuses_file(&[("added_tokens", token), ("normalizer", &nested)]));
    assert!(!refuses_text(&[("added_tokens", token)]));
    assert!(!refuses_text(&[("normalizer", strip)]));
    let lowercase = "{\"type\":\"Sequence\",\"normalizers\":[{\"type\":\"NFC\"},\
                     {\"type\":\"Lowercase\"}]}";
    let tokenizer = changed(&[("added_tokens", token), ("normalizer", lowercase)]);
    assert_eq!(encode(&tokenizer, "A B").unwrap(), vec![1, 2]);
    let precompiled = "{\"type\":\"Precompiled\",\"precompiled_charsmap\":\"AAAAAA==\"}";
    assert!(refuses_file(&[("normalizer", precompiled)]));
    let nested = format!("{{\"type\":\"Sequence\",\"normalizers\":[{precompiled}]}}");
    assert!(refuses_file(&[("normalizer", &nested)]));
    let disguised = "{\"type\":\"Lowercase\",\"normalizers\":[]}";
    assert!(refuses_file(&[("added_tokens", token), ("normalizer", disguised)]));
    let tokenizer = changed(&[("normalizer", disguised)]);
    assert_eq!(encode(&tokenizer, "A B").unwrap(), vec![1, 2]);
    // Without a kind it is told by its members, and may be any.
    let untold = "{\"strip_left\":true,\"strip_right\":true}";
    assert!(refuses_file(&[("added_tokens", token), ("normalizer", untold)]));
    assert!(!refuses_text(&[("normalizer", untold)]));
}

#[test]
fn replaced_text_stands_for_some_text() {
    let replace = |pattern: &str| {
        format!(
            "{{\"type\":\"Sequence\",\"normalizers\":[{{\"type\":\"Replace\",\
             \"pattern\":{pattern},\"content\":\"b\"}},{{\"type\":\"Lowercase\"}}]}}"
        )
    };
    assert!(refuses_text(&[("normalizer", &replace("{\"Regex\":\"^\"}"))]));
    assert!(refuses_text(&[("normalizer", &replace("{\"String\":\"\"}"))]));
    let tokenizer = changed(&[("normalizer", &replace("{\"String\":\"x\"}"))]);
    assert_eq!(encode(&tokenizer, "x A").unwrap(), vec![2, 1]);
    let prepend = |text: &str| {
        format!(
            "{{\"type\":\"Sequence\",\"normalizers\":[{{\"type\":\"Prepend\",\
             \"prepend\":\"{text}\"}},{{\"type\":\"Lowercase\"}}]}}"
        )
    };
    assert!(refuses_text(&[("normalizer", &prepend(""))]));
    let tokenizer = changed(&[("normalizer", &prepend("b "))]);
    assert_eq!(encode(&tokenizer, "A").unwrap(), vec![2, 1]);
}

fn token(id: u32, content: &str, flags: [bool; 3]) -> String {
    let [lstrip, rstrip, normalized] = flags;
    format!(
        "{{\"id\":{id},\"content\":\"{content}\",\"single_word\":false,\"lstrip\":{lstrip},\
         \"rstrip\":{rstrip},\"normalized\":{normalized},\"special\":false}}"
    )
}

#[test]
fn tokens_that_are_listed_twice_count_twice() {
    // The tokenizer keeps the flags of the second alone, and looks for both.
    let twice = format!(
        "[{},{}]",
        token(6, " ", [false, false, true]),
        token(6, " ", [false, false, false])
    );
    let strip = "{\"type\":\"Strip\",\"strip_left\":true,\"strip_right\":true}";
    assert!(refuses_file(&[("added_tokens", &twice), ("normalizer", strip)]));
    assert!(!refuses_text(&[("added_tokens", &twice)]));
}

#[test]
fn tokens_on_one_id_share_their_flags() {
    // The white space takes the id that the model has for the word.
    let model = "{\"type\":\"WordLevel\",\"unk_token\":\"a\",\"vocab\":{\"a\":0,\"foo\":2}}";
    let shared = format!(
        "[{},{},{}]",
        token(2, " ", [false, false, false]),
        token(2, "foo", [true, false, false]),
        token(3, "A", [false, true, false])
    );
    assert!(refuses_text(&[("model", model), ("added_tokens", &shared)]));
}

#[test]
fn added_ids_leave_room_for_more() {
    let model = "{\"type\":\"WordLevel\",\"unk_token\":\"a\",\"vocab\":{\"a\":0,\"b\":4294967295}}";
    let tokens = format!(
        "[{},{}]",
        token(1, "b", [false, false, false]),
        token(2, "c", [false, false, false])
    );
    assert!(refuses_file(&[("model", model), ("added_tokens", &tokens)]));
    assert!(!refuses_text(&[("model", model)]));
}

#[test]
fn prefixes_are_left_to_word_pieces() {
    let merged = |prefix: &str| {
        format!(
            "{{\"type\":\"BPE\",\"dropout\":null,\"unk_token\":null,\
             \"continuing_subword_prefix\":{prefix},\"end_of_word_suffix\":null,\
             \"fuse_unk\":false,\"byte_fallback\":false,\"ignore_merges\":false,\
             \"vocab\":{{\"a\":1,\"b\":2,\"ab\":3}},\"merges\":[[\"a\",\"b\"]]}}"
        )
    };
    assert!(refuses_file(&[("model", &merged("\"##\""))]));
    let tokenizer = changed(&[("model", &merged("null"))]);
    assert_eq!(encode(&tokenizer, "ab b").unwrap(), vec![3, 2]);
    let pieces = "{\"type\":\"WordPiece\",\"unk_token\":\"a\",\"continuing_subword_prefix\":\"##\",\
                  \"max_input_chars_per_word\":100,\"vocab\":{\"a\":1,\"##b\":2}}";
    let tokenizer = changed(&[("model", pieces)]);
    assert_eq!(encode(&tokenizer, "ab a").unwrap(), vec![1, 2, 1]);
}

#[test]
fn files_tell_what_is_wrong_with_them() {
    assert!(CheckedTokenizer::from_json("{").is_err());
    match CheckedTokenizer::from_json(&file(&[("version", "\"2.0\"")])) {
        Err(reason) => assert_eq!(reason, "Unknown tokenizer version '2.0'"),
        Ok(_) => panic!("the version is taken"),
    }
}

fn split(pattern: &str) -> String {
    format!(
        "{{\"type\":\"Split\",\"pattern\":{pattern},\"behavior\":\"Removed\",\"invert\":false}}"
    )
}

#[test]
fn expressions_do_not_look_back_at_their_match() {
    assert!(check_tame("(?i:'s|'t)|[^\\r\\n\\p{L}]?\\p{L}+|\\s+(?!\\S)|\\s+"));
    for wild in ["(a)\\1", "(?<n>a)\\k<n>", "(?P<n>a)(?P=n)", "(?=ab\\K)"] {
        assert!(!check_tame(wild));
    }
    let tokenizer = changed(&[("pre_tokenizer", &split("{\"Regex\":\"x+(?!b)\"}"))]);
    assert_eq!(encode(&tokenizer, "axxb").unwrap(), vec![1, 0]);
    assert!(refuses_text(&[("pre_tokenizer", &split("{\"Regex\":\"(?=ab\\\\K)\"}"))]));
    assert!(!refuses_text(&[("pre_tokenizer", &split("{\"String\":\"\"}"))]));
    let replace = |pattern: &str| {
        format!("{{\"type\":\"Replace\",\"pattern\":{pattern},\"content\":\"x\"}}")
    };
    assert!(refuses_tokens(&[("decoder", &replace("{\"Regex\":\"(?=ab\\\\K)\"}"))]));
    let tokenizer = changed(&[("decoder", &replace("{\"Regex\":\"a|d\"}"))]);
    assert_eq!(decode(&tokenizer, &vec![1, 2, 4]).unwrap(), "xbx");
}

#[test]
fn expressions_have_counts_that_can_be_multiplied() {
    for modest in ["\\p{N}{1,3}|[\\r\\n]*", "a{999999}", "999999999", "(?#{1}2345678)x", ""] {
        assert!(check_modest(modest));
    }
    for immodest in [
        "a{1000000}",
        "(?:aa){9999999999999999999}",
        "((a{1000}){1000})",
        "(?x)a{ 9999999 }",
        "a{(?#})9999999}",
    ] {
        assert!(!check_modest(immodest));
    }
    assert!(check_modest(&"a".repeat(4_000)));
    assert!(!check_modest(&"a".repeat(4_001)));

    let tokenizer = changed(&[("pre_tokenizer", &split("{\"Regex\":\"x{1,3}\"}"))]);
    assert_eq!(encode(&tokenizer, "axxb").unwrap(), vec![1, 2]);
    let huge = "{\"Regex\":\"(?:aa){9999999999999999999}\"}";
    assert!(refuses_file(&[("pre_tokenizer", &split(huge))]));
    let nested = format!("{{\"type\":\"Sequence\",\"pretokenizers\":[{}]}}", split(huge));
    assert!(refuses_file(&[("pre_tokenizer", &nested)]));
    let replace = format!("{{\"type\":\"Replace\",\"pattern\":{huge},\"content\":\"x\"}}");
    assert!(refuses_file(&[("decoder", &replace)]));
    assert!(refuses_file(&[("normalizer", &replace)]));
}

#[test]
fn stages_name_their_kinds() {
    let precompiled = "{\"type\":\"Precompiled\"}";
    assert!(refuses_file(&[("normalizer", precompiled)]));
    assert!(refuses_file(&[("normalizer", "{\"type\":{\"Precompiled\":null}}")]));
    assert!(refuses_file(&[("normalizer", &format!("[[{precompiled}]]"))]));
    assert!(refuses_file(&[("normalizer", &format!("{{\"normalizers\":[{precompiled}]}}"))]));
    assert!(refuses_file(&[("decoder", "[[{\"type\":\"Fuse\"}]]")]));
    let tokenizer = changed(&[("normalizer", "{\"strip_left\":true,\"strip_right\":true}")]);
    assert_eq!(encode(&tokenizer, " a b ").unwrap(), vec![1, 2]);
}

#[test]
fn added_tokens_do_not_take_the_same_white_space() {
    let token = |id: u32, content: &str, lstrip: bool, rstrip: bool| {
        token(id, content, [lstrip, rstrip, false])
    };
    let both = |first: String, second: String| format!("[{first},{second}]");
    let apart = both(token(1, "a", false, true), token(6, " ", true, false));
    assert!(refuses_text(&[("added_tokens", &apart)]));
    let words = both(token(1, "a", false, true), token(2, "b", true, false));
    let tokenizer = changed(&[("added_tokens", &words)]);
    assert_eq!(encode(&tokenizer, "a   b").unwrap(), vec![1, 2]);
    let left = both(token(1, "a", false, false), token(6, " ", true, false));
    assert!(!refuses_text(&[("added_tokens", &left)]));
}

#[test]
fn decoders_take_every_list_of_tokens() {
    assert!(refuses_tokens(&[("decoder", "{\"type\":\"BPEDecoder\",\"suffix\":\"</w>\"}")]));
    let strip =
        |stop: u32| format!("{{\"type\":\"Strip\",\"content\":\"a\",\"start\":1,\"stop\":{stop}}}");
    assert!(refuses_tokens(&[("decoder", &strip(1))]));
    let tokenizer = changed(&[("decoder", &strip(0))]);
    assert_eq!(decode(&tokenizer, &vec![1, 2]).unwrap(), "b");
    assert_eq!(decode(&tokenizer, &Vec::new()).unwrap(), "");
    let nested =
        format!("{{\"type\":\"Sequence\",\"decoders\":[{{\"type\":\"Fuse\"}},{}]}}", strip(1));
    assert!(refuses_tokens(&[("decoder", &nested)]));
    assert!(!refuses_tokens(&[("decoder", "{\"type\":\"Fuse\"}")]));
}

#[test]
fn stages_are_followed_as_deep_as_they_may_be_nested() {
    let nested = |levels: usize| {
        let mut stage = "{\"type\":\"Fuse\"}".to_string();
        for _ in 0..levels {
            stage = format!("{{\"type\":\"Sequence\",\"decoders\":[{stage}]}}");
        }
        stage
    };
    assert!(!refuses_tokens(&[("decoder", &nested(30))]));
}

#[test]
fn encoding_and_decoding_are_refused_apart() {
    let tokenizer = changed(&[("truncation", &truncation(1, 1))]);
    assert_eq!(decode(&tokenizer, &vec![1, 2]).unwrap(), "a b");
    let tokenizer = changed(&[("decoder", "{\"type\":\"BPEDecoder\",\"suffix\":\"\"}")]);
    assert_eq!(encode(&tokenizer, "a b c").unwrap(), vec![1, 2, 3]);
}

#[test]
fn turns_tell_that_the_tokenizer_is_not_called() {
    let config = LFM25AudioOnnxConfig::default();
    let tokenizer = changed(&[("truncation", &truncation(1, 1))]);
    assert!(matches!(
        start_text_turn(&tokenizer, "a", LFM25AudioMode::Tts, &config),
        Err(NodeError::Tokenization(reason)) if reason == REFUSAL
    ));
    assert!(matches!(
        start_audio_turn(&tokenizer, LFM25AudioMode::Asr, &config, 1),
        Err(NodeError::Tokenization(reason)) if reason == REFUSAL
    ));
    let tokenizer = changed(&[("decoder", "{\"type\":\"BPEDecoder\",\"suffix\":\"\"}")]);
    let mut turn = Turn::for_text(&config, false, 1);
    turn.on_token(1);
    turn.on_embedded();
    turn.on_token(7);
    assert!(matches!(
        turn.flush_text(&tokenizer),
        Err(NodeError::Decoding(reason)) if reason == REFUSAL
    ));
    assert!(matches!(turn.request(), TurnRequest::DecodeText));
}
