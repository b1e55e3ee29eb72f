use lfm25_audio_onnx::config::{
    default_conv_cache, default_hidden_size, default_num_heads, default_num_kv_heads,
    default_num_layers, default_vocab_size, effective_system_prompt, LFM25AudioMode,
    LFM25AudioOnnxConfig, LFM25AudioPrecision, LfmCoreConfig, MelConfig,
};
use lfm25_audio_onnx::error::NodeError;
use lfm25_audio_onnx::prompt::{audio_turn_from, start_audio_turn, start_text_turn, text_turn_from};
use lfm25_audio_onnx::tokenizer::{
    decode, decoding_result, encode, encoding_result, CheckedTokenizer,
};
use lfm25_audio_onnx::turn::TurnRequest;

/// A tokenizer that splits at white space and knows the words of some prompts.
fn words(unknown: &str) -> CheckedTokenizer {
    let vocab = [
        unknown,
        "<|startoftext|><|im_start|>system",
        "Perform",
        "ASR.<|im_end|>",
        "<|im_start|>user",
        "hello<|im_end|>",
        "<|im_start|>assistant",
        "<|im_end|>",
        "TTS.",
        "Use",
        "the",
        "UK",
        "female",
        "voice.<|im_end|>",
        "Respond",
        "with",
        "interleaved",
        "text",
        "and",
        "audio.<|im_end|>",
        "Sing.<|im_end|>",
        "hello",
    ];
    let entries: Vec<String> =
        vocab.iter().enumerate().map(|(id, word)| format!("\"{word}\":{id}")).collect();
    let json = format!(
        "{{\"version\":\"1.0\",\"truncation\":null,\"padding\":null,\"added_tokens\":[],\
         \"normalizer\":null,\"pre_tokenizer\":{{\"type\":\"WhitespaceSplit\"}},\
         \"post_processor\":null,\"decoder\":null,\
         \"model\":{{\"type\":\"WordLevel\",\"vocab\":{{{}}},\"unk_token\":\"[UNK]\"}}}}",
        entries.join(",")
    );
    CheckedTokenizer::from_json(&json).unwrap()
}

#[test]
fn text_becomes_ids_and_text_again() {
    let tokenizer = words("[UNK]");
    let ids = encode(&tokenizer, "Perform the text").unwrap();
    assert_eq!(ids, vec![2, 10, 17]);
    assert_eq!(decode(&tokenizer, &ids).unwrap(), "Perform the text");
    assert_eq!(encode(&tokenizer, "nonsense").unwrap(), vec![0]);
    assert_eq!(encode(&tokenizer, "").unwrap(), Vec::<u32>::new());
}

#[test]
fn tokenizer_failures_keep_their_reason() {
    let tokenizer = words("nothing");
    match encode(&tokenizer, "nonsense") {
        Err(NodeError::Tokenization(reason)) => {
            assert_eq!(reason, "WordLevel error: Missing [UNK] token from the vocabulary")
        }
        other => panic!("{other:?}"),
    }
    assert!(matches!(
        encoding_result(Err("why".to_string())),
        Err(NodeError::Tokenization(reason)) if reason == "why"
    ));
    assert!(matches!(
        decoding_result(Err("why".to_string())),
        Err(NodeError::Decoding(reason)) if reason == "why"
    ));
    assert_eq!(decoding_result(Ok("text".to_string())).unwrap(), "text");
}

#[test]
fn speech_prompts_hold_the_words_between_their_marks() {
    let tokenizer = words("[UNK]");
    let start =
        start_text_turn(&tokenizer, "hello", LFM25AudioMode::Tts, &LFM25AudioOnnxConfig::default())
            .unwrap();
    assert_eq!(start.ids, vec![1, 2, 8, 9, 10, 11, 12, 13, 4, 5, 6]);
    assert!(matches!(start.turn.request(), TurnRequest::RunDecoder { seq_len: 11, .. }));
}

#[test]
fn interleaved_prompts_have_their_own_instruction() {
    let tokenizer = words("[UNK]");
    let start = start_text_turn(
        &tokenizer,
        "hello",
        LFM25AudioMode::Interleaved,
        &LFM25AudioOnnxConfig::default(),
    )
    .unwrap();
    assert_eq!(start.ids, vec![1, 14, 15, 16, 17, 18, 19, 4, 5, 6]);
}

#[test]
fn configured_prompts_take_precedence() {
    let tokenizer = words("[UNK]");
    let config =
        LFM25AudioOnnxConfig { system_prompt: "Sing.".to_string(), ..LFM25AudioOnnxConfig::default() };
    let start = start_text_turn(&tokenizer, "hello", LFM25AudioMode::Tts, &config).unwrap();
    assert_eq!(start.ids, vec![1, 20, 4, 5, 6]);
}

#[test]
fn transcription_prompts_enclose_the_audio() {
    let tokenizer = words("[UNK]");
    let start =
        start_audio_turn(&tokenizer, LFM25AudioMode::Asr, &LFM25AudioOnnxConfig::default(), 30)
            .unwrap();
    assert_eq!(
        start.prefix,
        "<|startoftext|><|im_start|>system\nPerform ASR.<|im_end|>\n<|im_start|>user\n"
    );
    assert_eq!(start.prefix_ids, vec![1, 2, 3, 4]);
    assert_eq!(start.suffix_ids, vec![7, 6]);
    assert!(matches!(start.turn.request(), TurnRequest::RunDecoder { seq_len: 32, .. }));
}

#[test]
fn modes_refuse_the_other_input() {
    let tokenizer = words("[UNK]");
    let config = LFM25AudioOnnxConfig::default();
    assert!(matches!(
        start_text_turn(&tokenizer, "hello", LFM25AudioMode::Asr, &config),
        Err(NodeError::TextInAsr)
    ));
    assert!(matches!(
        start_audio_turn(&tokenizer, LFM25AudioMode::Tts, &config, 1),
        Err(NodeError::AudioInTts)
    ));
}

#[test]
fn prompts_that_cannot_be_encoded_start_no_turn() {
    let tokenizer = words("nothing");
    let config =
        LFM25AudioOnnxConfig { system_prompt: "Dance.".to_string(), ..LFM25AudioOnnxConfig::default() };
    assert!(matches!(
        start_text_turn(&tokenizer, "hello", LFM25AudioMode::Tts, &config),
        Err(NodeError::Tokenization(_))
    ));
    assert!(matches!(
        start_audio_turn(&tokenizer, LFM25AudioMode::Asr, &config, 1),
        Err(NodeError::Tokenization(_))
    ));
}

#[test]
fn audio_beyond_all_counting_starts_no_turn() {
    let tokenizer = words("[UNK]");
    assert!(matches!(
        start_audio_turn(
            &tokenizer,
            LFM25AudioMode::Asr,
            &LFM25AudioOnnxConfig::default(),
            usize::MAX - 1
        ),
        Err(NodeError::InputTooLong)
    ));
}

#[test]
fn turns_from_given_encodings() {
    let config = LFM25AudioOnnxConfig::default();
    let start = text_turn_from(&config, LFM25AudioMode::Interleaved, Ok(vec![1, 2, 3])).unwrap();
    assert_eq!(start.ids, vec![1, 2, 3]);
    assert!(matches!(
        text_turn_from(&config, LFM25AudioMode::Tts, Err("no".to_string())),
        Err(NodeError::Tokenization(reason)) if reason == "no"
    ));
    let start =
        audio_turn_from(&config, LFM25AudioMode::Interleaved, 5, Ok(vec![1]), Ok(vec![2, 3])).unwrap();
    assert!(matches!(start.turn.request(), TurnRequest::RunDecoder { seq_len: 7, .. }));
    assert!(matches!(
        audio_turn_from(&config, LFM25AudioMode::Asr, 5, Err("a".to_string()), Err("b".to_string())),
        Err(NodeError::Tokenization(reason)) if reason == "a"
    ));
}

#[test]
fn flushed_text_is_what_the_tokenizer_makes_of_it() {
    let tokenizer = words("[UNK]");
    let mut start = start_text_turn(
        &tokenizer,
        "hello",
        LFM25AudioMode::Interleaved,
        &LFM25AudioOnnxConfig::default(),
    )
    .unwrap();
    start.turn.on_token(21);
    start.turn.on_embedded();
    start.turn.on_token(7);
    assert_eq!(start.turn.flush_text(&tokenizer).unwrap(), Some("hello".to_string()));
    assert!(matches!(start.turn.request(), TurnRequest::Finished(1)));
}

#[test]
fn flushed_text_of_speech_is_kept_back() {
    let tokenizer = words("[UNK]");
    let mut start =
        start_text_turn(&tokenizer, "hello", LFM25AudioMode::Tts, &LFM25AudioOnnxConfig::default())
            .unwrap();
    start.turn.on_token(21);
    start.turn.on_embedded();
    start.turn.on_token(7);
    assert_eq!(start.turn.flush_text(&tokenizer).unwrap(), None);
    assert!(matches!(start.turn.request(), TurnRequest::Finished(0)));
}

#[test]
fn flushed_text_without_words_is_kept_back() {
    let tokenizer = words("[UNK]");
    let mut start = start_text_turn(
        &tokenizer,
        "hello",
        LFM25AudioMode::Interleaved,
        &LFM25AudioOnnxConfig::default(),
    )
    .unwrap();
    // A token that the tokenizer does not know has no text.
    start.turn.on_token(5000);
    start.turn.on_embedded();
    start.turn.on_token(7);
    assert_eq!(start.turn.flush_text(&tokenizer).unwrap(), None);
    assert!(matches!(start.turn.request(), TurnRequest::Finished(0)));
}

#[test]
fn blank_prompts_give_way_to_the_mode() {
    let blank =
        LFM25AudioOnnxConfig { system_prompt: " \n".to_string(), ..LFM25AudioOnnxConfig::default() };
    assert_eq!(effective_system_prompt(LFM25AudioMode::Asr, &blank), "Perform ASR.");
    assert_eq!(
        effective_system_prompt(LFM25AudioMode::Tts, &blank),
        "Perform TTS. Use the UK female voice."
    );
    assert_eq!(
        effective_system_prompt(LFM25AudioMode::Interleaved, &blank),
        "Respond with interleaved text and audio."
    );
    let own =
        LFM25AudioOnnxConfig { system_prompt: " Sing. ".to_string(), ..LFM25AudioOnnxConfig::default() };
    assert_eq!(effective_system_prompt(LFM25AudioMode::Asr, &own), " Sing. ");
}

#[test]
fn settings_have_defaults() {
    let config = LFM25AudioOnnxConfig::default();
    assert_eq!(config.model_dir, "models/LFM2.5-Audio-1.5B-ONNX");
    assert_eq!(config.mode, LFM25AudioMode::Interleaved);
    assert_eq!(config.mode, LFM25AudioMode::default());
    assert_eq!(config.precision, LFM25AudioPrecision::Q4);
    assert_eq!(config.precision, LFM25AudioPrecision::default());
    assert_eq!(config.system_prompt, "");
    assert_eq!(config.device, "cpu");
    assert_eq!(config.max_new_tokens, 4096);
    assert_eq!(config.input_sample_rate, 16_000);
    assert_eq!(config.output_sample_rate, 24_000);
    assert_eq!(config.audio_batch_size, 12);
    assert_eq!(config.first_chunk_audio_batch_size, None);
    assert_eq!(f32::from_bits(config.text_temperature.bits), 1.0);
    assert_eq!(f32::from_bits(config.audio_temperature.bits), 1.0);
    assert_eq!(config.audio_top_k, 4);
    assert!(!config.audio_first_interleaved);
    assert!(!config.prewarm);
    assert_eq!(config.depthformer_precision, None);
    assert_eq!(config.depthformer_device, None);
    assert!(config.use_unrolled_depthformer);
}

#[test]
fn model_shapes_have_defaults() {
    let core = LfmCoreConfig::default();
    assert_eq!(core.hidden_size, default_hidden_size());
    assert_eq!(default_hidden_size(), 2048);
    assert_eq!(core.num_hidden_layers, default_num_layers());
    assert_eq!(default_num_layers(), 16);
    assert_eq!(core.num_key_value_heads, default_num_kv_heads());
    assert_eq!(default_num_kv_heads(), 8);
    assert_eq!(core.num_attention_heads, default_num_heads());
    assert_eq!(default_num_heads(), 32);
    assert_eq!(core.conv_l_cache, default_conv_cache());
    assert_eq!(default_conv_cache(), 3);
    assert_eq!(core.vocab_size, default_vocab_size());
    assert_eq!(default_vocab_size(), 65_536);
    assert!(core.layer_types.is_empty());
    let mel = MelConfig::default();
    assert_eq!((mel.sample_rate, mel.n_fft, mel.win_length), (16_000, 512, 400));
    assert_eq!((mel.hop_length, mel.n_mels), (160, 128));
    assert_eq!(f32::from_bits(mel.fmin.bits), 0.0);
    assert_eq!(f32::from_bits(mel.fmax.bits), 8_000.0);
    assert_eq!(f32::from_bits(mel.preemph.bits), 0.97);
    assert_eq!(f32::from_bits(mel.log_zero_guard.bits), 5.960_464_5e-8);
}

#[test]
fn precision_names_its_graphs() {
    assert_eq!(LFM25AudioPrecision::Q4.suffix(), "_q4");
    assert_eq!(LFM25AudioPrecision::Fp16.suffix(), "_fp16");
    assert_eq!(LFM25AudioPrecision::Fp32.suffix(), "");
}
