use lfm25_audio_onnx::device::{
    first_load_step, next_load_step, parse_device, parse_i32, Device, LoadOutcome, LoadStep,
};
use lfm25_audio_onnx::error::NodeError;
use lfm25_audio_onnx::scalar::{F32Bits, NEG_INFINITY_BITS, ONE_BITS};
use lfm25_audio_onnx::store::KeyedStore;
use lfm25_audio_onnx::text;

fn bits(value: f32) -> F32Bits {
    F32Bits { bits: value.to_bits() }
}

#[test]
fn blank_text_is_what_trim_leaves_empty() {
    for sample in ["", " ", "\t\n\r", "\u{a0}\u{3000}", "\u{85}\u{2028}\u{205f}", "a", " a ", "\u{200b}"] {
        assert_eq!(text::is_blank_text(sample), sample.trim().is_empty(), "{sample:?}");
    }
}

#[test]
fn white_space_agrees_with_unicode() {
    for code in 0..0x11_0000u32 {
        if let Some(c) = char::from_u32(code) {
            assert_eq!(text::is_white_space(c), c.is_whitespace(), "{code:x}");
        }
    }
}

#[test]
fn prefixes_and_rests() {
    assert!(text::begins_with("cuda:1", "cuda"));
    assert!(!text::begins_with("cud", "cuda"));
    assert_eq!(text::after_prefix("past_conv.12", "past_conv."), Some("12"));
    assert_eq!(text::after_prefix("naïve", "na"), Some("ïve"));
    assert_eq!(text::after_prefix("x", "y"), None);
    assert!(text::same_text("ä", "ä"));
    assert!(!text::same_text("ä", "a"));
}

#[test]
fn numerals_and_joining() {
    assert_eq!(text::decimal(0), "0");
    assert_eq!(text::decimal(1_234_567_890), "1234567890");
    assert_eq!(text::decimal(u64::MAX), "18446744073709551615");
    let parts = vec!["a".to_string(), "b".to_string(), "c".to_string()];
    assert_eq!(text::join(&parts, ", "), "a, b, c");
    assert_eq!(text::join(&Vec::new(), ", "), "");
    assert_eq!(text::concat("ab", "cd"), "abcd");
    assert_eq!(text::chars_of("aß"), vec!['a', 'ß']);
}

#[test]
fn bit_patterns_compare_as_floats_do() {
    let samples = [
        0.0f32,
        -0.0,
        1.0,
        -1.0,
        1e-40,
        -1e-40,
        3.5,
        f32::MAX,
        f32::MIN,
        f32::INFINITY,
        f32::NEG_INFINITY,
        f32::NAN,
    ];
    for a in samples {
        assert_eq!(bits(a).is_finite(), a.is_finite());
        assert_eq!(bits(a).is_positive(), a > 0.0);
        assert_eq!(bits(a).is_at_most_zero(), a <= 0.0);
        assert_eq!(bits(a).is_zero(), a == 0.0);
        for b in samples {
            assert_eq!(bits(a).is_less(&bits(b)), a < b, "{a} {b}");
            assert_eq!(bits(a).is_at_most(&bits(b)), a <= b, "{a} {b}");
            assert_eq!(
                bits(a).total_order() < bits(b).total_order(),
                a.total_cmp(&b).is_lt(),
                "{a} {b}"
            );
        }
    }
    assert_eq!(ONE_BITS, 1.0f32.to_bits());
    assert_eq!(NEG_INFINITY_BITS, f32::NEG_INFINITY.to_bits());
}

#[test]
fn whole_numbers_are_read_as_the_standard_library_does() {
    for numeral in [
        "0", "1", "-1", "+7", "007", "2147483647", "2147483648", "-2147483648", "-2147483649",
        "99999999999999999999", "", "-", "+", "1 ", " 1", "1a", "--1", "+-1", "٣",
    ] {
        assert_eq!(parse_i32(numeral), numeral.parse::<i32>().ok(), "{numeral:?}");
    }
}

#[test]
fn devices_by_name() {
    assert_eq!(parse_device("cpu"), Device::Cpu);
    assert_eq!(parse_device(""), Device::Cpu);
    assert_eq!(parse_device("CUDA"), Device::Cpu);
    assert_eq!(parse_device("cuda"), Device::Cuda { device_id: 0 });
    assert_eq!(parse_device("cuda:0"), Device::Cuda { device_id: 0 });
    assert_eq!(parse_device("cuda:3"), Device::Cuda { device_id: 3 });
    assert_eq!(parse_device("cuda:-1"), Device::Cuda { device_id: -1 });
    assert_eq!(parse_device("cuda:x"), Device::Cuda { device_id: 0 });
    assert_eq!(parse_device("cuda1"), Device::Cuda { device_id: 0 });
}

#[test]
fn graphs_fall_back_to_the_cpu_once() {
    let gpu = Device::Cuda { device_id: 1 };
    assert_eq!(first_load_step("cuda:1"), LoadStep::Try(gpu));
    assert_eq!(next_load_step(gpu, LoadOutcome::Loaded), LoadStep::Use);
    assert_eq!(next_load_step(gpu, LoadOutcome::GraphFailed), LoadStep::Try(Device::Cpu));
    assert_eq!(next_load_step(gpu, LoadOutcome::SetupFailed), LoadStep::Fail);
    assert_eq!(next_load_step(Device::Cpu, LoadOutcome::GraphFailed), LoadStep::Fail);
    assert_eq!(first_load_step("cpu"), LoadStep::Try(Device::Cpu));
}

#[test]
fn store_keeps_the_last_value_of_a_key() {
    let mut store: KeyedStore<u32> = KeyedStore::new();
    assert!(store.get("a").is_none());
    store.insert("a", 1);
    store.insert("b", 2);
    store.insert("a", 3);
    assert_eq!(store.get("a"), Some(&3));
    assert_eq!(store.get("b"), Some(&2));
    store.clear();
    assert!(store.get("a").is_none());
    assert!(store.get("b").is_none());
}

#[test]
fn failures_are_worded() {
    let cases = [
        (NodeError::TextInAsr, "LFM25AudioOnnxNode: text input is not valid in ASR mode"),
        (NodeError::AudioInTts, "LFM25AudioOnnxNode: audio input is not valid in TTS mode"),
        (
            NodeError::Tokenization("x".to_string()),
            "LFM25AudioOnnxNode: tokenization failed: x",
        ),
        (NodeError::Decoding("x".to_string()), "LFM25AudioOnnxNode: decode failed: x"),
        (
            NodeError::TokenOutsideVocab(70_000),
            "LFM25AudioOnnxNode: token id 70000 outside embedding vocab",
        ),
        (
            NodeError::AudioIndexOutOfRange(16_391),
            "LFM25AudioOnnxNode: audio embedding index 16391 out of range",
        ),
        (
            NodeError::EmptyDecoderToken,
            "LFM25AudioOnnxNode: decoder token output was empty",
        ),
        (
            NodeError::EmptyDepthformerToken,
            "LFM25AudioOnnxNode: depthformer token output was empty",
        ),
        (
            NodeError::MissingCacheTensor("present_conv.0".to_string()),
            "LFM25AudioOnnxNode: decoder output missing required cache tensor present_conv.0",
        ),
        (
            NodeError::CodeCount(7),
            "LFM25AudioOnnxNode: unrolled depthformer returned 7 codes, expected 8",
        ),
        (
            NodeError::FrontendRate { expected: 16_000, got: 8_000 },
            "LFM25AudioOnnxNode: ASR frontend expects 16000Hz audio, got 8000Hz",
        ),
        (
            NodeError::UnalignedBlob { path: "a.bin".to_string(), len: 5 },
            "LFM25AudioOnnxNode: a.bin byte length 5 is not aligned to f32",
        ),
        (
            NodeError::IncompleteBundle(vec!["a".to_string(), "b".to_string()]),
            "LFM25AudioOnnxNode: model bundle is incomplete; missing a, b",
        ),
        (
            NodeError::AudioNeedsMode,
            "LFM25AudioOnnxNode: audio input requires asr or interleaved mode",
        ),
        (
            NodeError::InputRate { expected: 16_000, got: 44_100 },
            "LFM25AudioOnnxNode: expected 16000Hz audio input, got 44100Hz",
        ),
        (
            NodeError::TextNeedsMode,
            "LFM25AudioOnnxNode: text input requires tts or interleaved mode",
        ),
        (NodeError::EmptyText, "LFM25AudioOnnxNode: text input must not be empty"),
        (
            NodeError::UnsupportedInput("video".to_string()),
            "LFM25AudioOnnxNode expects Audio, Text, or aux Json input; got video",
        ),
        (NodeError::NoOutput, "LFM25AudioOnnxNode produced no outputs"),
        (NodeError::InputTooLong, "LFM25AudioOnnxNode: input is too long"),
    ];
    for (error, wording) in cases {
        assert_eq!(error.message(), wording);
    }
}
