use lfm25_audio_onnx::bundle::{
    graph_name, optional_graphs, plan_graphs, required_files, split_data_sidecars_present,
    validate_bundle, EnvSwitches, FileProbe, GraphProbe,
};
use lfm25_audio_onnx::config::{LFM25AudioMode, LFM25AudioOnnxConfig, LFM25AudioPrecision};
use lfm25_audio_onnx::control::{aux_port, control_action, ControlAction};
use lfm25_audio_onnx::error::NodeError;
use lfm25_audio_onnx::node::{
    end_stream, require_output, Accepted, LFM25AudioOnnxNode, LFM25AudioOnnxNodeFactory, LFM25Input,
    RuntimeData,
};
use lfm25_audio_onnx::scalar::F32Bits;
use lfm25_audio_onnx::warmup::{initial_turn, warm_up, WarmInput};
use serde_json::Value;

const NO_SWITCHES: EnvSwitches = EnvSwitches {
    disable_text_sampling: false,
    disable_decoder_argmax: false,
    disable_audio_sampling: false,
};

const EVERYTHING: GraphProbe = GraphProbe {
    decoder_argmax: true,
    depthformer_unrolled: true,
    depthformer_unrolled_sample: true,
    depthformer_argmax: true,
    istft: true,
};

const NOTHING: GraphProbe = GraphProbe {
    decoder_argmax: false,
    depthformer_unrolled: false,
    depthformer_unrolled_sample: false,
    depthformer_argmax: false,
    istft: false,
};

fn cold() -> LFM25AudioOnnxConfig {
    LFM25AudioOnnxConfig {
        text_temperature: F32Bits { bits: 0 },
        audio_temperature: F32Bits { bits: 0 },
        ..LFM25AudioOnnxConfig::default()
    }
}

fn node(mode: LFM25AudioMode) -> LFM25AudioOnnxNode {
    LFM25AudioOnnxNode::new(LFM25AudioOnnxConfig { mode, ..LFM25AudioOnnxConfig::default() })
}

fn json(text: &str) -> Value {
    serde_json::from_str(text).unwrap()
}

fn audio(sample_rate: u32) -> RuntimeData<Vec<u8>> {
    RuntimeData::Audio { samples: vec![1, 2, 3], sample_rate }
}

fn text(words: &str) -> RuntimeData<Vec<u8>> {
    RuntimeData::Text(words.to_string())
}

fn probes(missing: &[usize]) -> Vec<FileProbe> {
    required_files(LFM25AudioPrecision::Q4)
        .into_iter()
        .enumerate()
        .map(|(at, name)| FileProbe {
            display: format!("m/{name}"),
            exists: !missing.contains(&at),
        })
        .collect()
}

fn sidecars() -> Vec<String> {
    vec![
        "decoder_q4.onnx_data".to_string(),
        "audio_encoder_q4.onnx_data_1".to_string(),
        "audio_embedding_q4.onnx_data".to_string(),
        "audio_detokenizer_q4.onnx_data".to_string(),
        "vocoder_depthformer_q4.onnx_data".to_string(),
    ]
}

#[test]
fn required_files_by_precision() {
    assert_eq!(
        required_files(LFM25AudioPrecision::Fp16),
        vec![
            "decoder_fp16.onnx",
            "audio_encoder_fp16.onnx",
            "audio_embedding_fp16.onnx",
            "audio_detokenizer_fp16.onnx",
            "vocoder_depthformer_fp16.onnx",
            "embed_tokens.bin",
            "embed_tokens.json",
            "audio_embedding.bin",
            "audio_embedding.json",
            "mel_config.json",
        ]
    );
    assert_eq!(graph_name("decoder", LFM25AudioPrecision::Fp32, ""), "decoder.onnx");
}

#[test]
fn sidecars_are_told_by_their_names() {
    let present = |entry: &str| {
        split_data_sidecars_present("decoder.onnx", &vec!["x".to_string(), entry.to_string()])
    };
    assert!(present("decoder.onnx_data"));
    assert!(present("decoder.onnx_data_0"));
    assert!(!present("decoder.onnx_data0"));
    assert!(!present("decoder.onnx"));
    assert!(!present("my_decoder.onnx_data"));
    assert!(!split_data_sidecars_present("decoder.onnx", &Vec::new()));
}

#[test]
fn complete_bundles_pass() {
    assert!(validate_bundle(LFM25AudioPrecision::Q4, &probes(&[]), &sidecars()).is_ok());
}

#[test]
fn missing_files_and_sidecars_are_all_named() {
    let mut listing = sidecars();
    listing.remove(0);
    match validate_bundle(LFM25AudioPrecision::Q4, &probes(&[1, 9]), &listing) {
        Err(NodeError::IncompleteBundle(missing)) => assert_eq!(
            missing,
            vec![
                "m/audio_encoder_q4.onnx",
                "m/mel_config.json",
                "m/decoder_q4.onnx external data sidecar(s): expected decoder_q4.onnx_data*",
            ]
        ),
        other => panic!("{other:?}"),
    }
}

#[test]
fn missing_graphs_need_no_sidecar() {
    match validate_bundle(LFM25AudioPrecision::Q4, &probes(&[0, 1, 2, 3, 4]), &Vec::new()) {
        Err(NodeError::IncompleteBundle(missing)) => assert_eq!(missing.len(), 5),
        other => panic!("{other:?}"),
    }
}

#[test]
fn sampling_uses_graphs_that_leave_the_choice_open() {
    let plan = plan_graphs(&LFM25AudioOnnxConfig::default(), EVERYTHING, NO_SWITCHES);
    assert_eq!(plan.decoder, "decoder_q4.onnx");
    assert!(!plan.decoder_token_output);
    assert_eq!(plan.depthformer, "vocoder_depthformer_q4_unrolled_sample.onnx");
    assert!(plan.depthformer_unrolled);
    assert!(!plan.depthformer_token_output);
    assert_eq!(plan.istft, Some("audio_istft.onnx".to_string()));
    assert_eq!(plan.audio_embedding, "audio_embedding_q4.onnx");
    assert_eq!(plan.audio_encoder, "audio_encoder_q4.onnx");
    assert_eq!(plan.audio_detokenizer, "audio_detokenizer_q4.onnx");
    assert_eq!((plan.device.as_str(), plan.depthformer_device.as_str()), ("cpu", "cpu"));
}

#[test]
fn greedy_generation_uses_graphs_that_choose() {
    let plan = plan_graphs(&cold(), EVERYTHING, NO_SWITCHES);
    assert_eq!(plan.decoder, "decoder_q4_argmax.onnx");
    assert!(plan.decoder_token_output);
    assert_eq!(plan.depthformer, "vocoder_depthformer_q4_unrolled.onnx");
    assert!(plan.depthformer_unrolled);
    let rolled = LFM25AudioOnnxConfig { use_unrolled_depthformer: false, ..cold() };
    let plan = plan_graphs(&rolled, EVERYTHING, NO_SWITCHES);
    assert_eq!(plan.depthformer, "vocoder_depthformer_q4_argmax.onnx");
    assert!(plan.depthformer_token_output);
    assert!(!plan.depthformer_unrolled);
}

#[test]
fn plain_graphs_stand_in_for_missing_ones() {
    for config in [cold(), LFM25AudioOnnxConfig::default()] {
        let plan = plan_graphs(&config, NOTHING, NO_SWITCHES);
        assert_eq!(plan.decoder, "decoder_q4.onnx");
        assert_eq!(plan.depthformer, "vocoder_depthformer_q4.onnx");
        assert!(!plan.decoder_token_output);
        assert!(!plan.depthformer_unrolled);
        assert!(!plan.depthformer_token_output);
        assert_eq!(plan.istft, None);
    }
}

#[test]
fn switches_overrule_the_temperatures() {
    let switches = EnvSwitches {
        disable_text_sampling: true,
        disable_audio_sampling: true,
        ..NO_SWITCHES
    };
    let plan = plan_graphs(&LFM25AudioOnnxConfig::default(), EVERYTHING, switches);
    assert!(plan.decoder_token_output);
    assert_eq!(plan.depthformer, "vocoder_depthformer_q4_unrolled.onnx");
    let switches = EnvSwitches { disable_decoder_argmax: true, ..NO_SWITCHES };
    assert!(!plan_graphs(&cold(), EVERYTHING, switches).decoder_token_output);
}

#[test]
fn depthformer_has_its_own_precision_and_device() {
    let config = LFM25AudioOnnxConfig {
        depthformer_precision: Some(LFM25AudioPrecision::Fp32),
        depthformer_device: Some("cuda:1".to_string()),
        ..cold()
    };
    let names = optional_graphs(&config);
    assert_eq!(names.decoder_argmax, "decoder_q4_argmax.onnx");
    assert_eq!(names.depthformer_unrolled, "vocoder_depthformer_unrolled.onnx");
    assert_eq!(names.depthformer_unrolled_sample, "vocoder_depthformer_unrolled_sample.onnx");
    assert_eq!(names.depthformer_argmax, "vocoder_depthformer_argmax.onnx");
    assert_eq!(names.istft, "audio_istft.onnx");
    let plan = plan_graphs(&config, NOTHING, NO_SWITCHES);
    assert_eq!(plan.depthformer, "vocoder_depthformer.onnx");
    assert_eq!(plan.decoder, "decoder_q4.onnx");
    assert_eq!(plan.depthformer_device, "cuda:1");
    assert_eq!(plan.device, "cpu");
}

#[test]
fn warm_up_turns_are_short() {
    let config = LFM25AudioOnnxConfig { audio_batch_size: 0, ..LFM25AudioOnnxConfig::default() };
    let turn = warm_up(&config);
    assert_eq!(turn.config.max_new_tokens, 4);
    assert_eq!(turn.config.audio_batch_size, 1);
    assert_eq!(turn.config.first_chunk_audio_batch_size, Some(1));
    assert_eq!(turn.config.device, config.device);
    assert!(matches!(turn.input, WarmInput::Silence { samples: 4000, sample_rate: 16_000 }));
    let config = LFM25AudioOnnxConfig {
        max_new_tokens: 0,
        first_chunk_audio_batch_size: Some(3),
        input_sample_rate: 100,
        mode: LFM25AudioMode::Asr,
        ..LFM25AudioOnnxConfig::default()
    };
    let turn = warm_up(&config);
    assert_eq!(turn.config.max_new_tokens, 1);
    assert_eq!(turn.config.audio_batch_size, 12);
    assert_eq!(turn.config.first_chunk_audio_batch_size, Some(3));
    assert!(matches!(turn.input, WarmInput::Silence { samples: 160, sample_rate: 100 }));
    assert!(matches!(warm_up(node(LFM25AudioMode::Tts).config()).input, WarmInput::Words(w) if w == "warmup"));
}

#[test]
fn nodes_warm_up_where_they_are_set_up_to() {
    assert!(initial_turn(&LFM25AudioOnnxConfig::default()).is_none());
    let config = LFM25AudioOnnxConfig { prewarm: true, ..LFM25AudioOnnxConfig::default() };
    assert_eq!(initial_turn(&config).unwrap().config.max_new_tokens, 4);
}

#[test]
fn envelopes_name_their_port() {
    assert_eq!(aux_port(&json("{\"__aux_port__\":\"reset\",\"payload\":{}}")), Some("reset"));
    assert_eq!(aux_port(&json("{\"__aux_port__\":5}")), None);
    assert_eq!(aux_port(&json("{\"port\":\"reset\"}")), None);
    assert_eq!(aux_port(&json("[\"__aux_port__\"]")), None);
    assert_eq!(aux_port(&json("\"__aux_port__\"")), None);
}

#[test]
fn ports_that_forget_and_ports_that_do_not() {
    for port in ["context", "system_prompt", "reset"] {
        assert_eq!(control_action(port), ControlAction::ForgetSessions);
    }
    for port in ["barge_in", "", "Reset", "volume"] {
        assert_eq!(control_action(port), ControlAction::Ignore);
    }
}

#[test]
fn asr_takes_audio_alone() {
    let node = node(LFM25AudioMode::Asr);
    match node.build_input(audio(16_000)) {
        Ok(LFM25Input::Audio { samples, sample_rate, mode }) => {
            assert_eq!(samples, vec![1, 2, 3]);
            assert_eq!(sample_rate, 16_000);
            assert_eq!(mode, LFM25AudioMode::Asr);
        }
        other => panic!("{other:?}"),
    }
    assert!(matches!(node.build_input(text("hello")), Err(NodeError::TextNeedsMode)));
    assert!(matches!(node.build_input(text(" ")), Err(NodeError::TextNeedsMode)));
}

#[test]
fn tts_takes_text_alone() {
    let node = node(LFM25AudioMode::Tts);
    match node.build_input(text(" hello ")) {
        Ok(LFM25Input::Text { text, mode }) => {
            assert_eq!(text, " hello ");
            assert_eq!(mode, LFM25AudioMode::Tts);
        }
        other => panic!("{other:?}"),
    }
    assert!(matches!(node.build_input(text(" \n")), Err(NodeError::EmptyText)));
    assert!(matches!(node.build_input(audio(16_000)), Err(NodeError::AudioNeedsMode)));
    assert!(matches!(node.build_input(audio(1)), Err(NodeError::AudioNeedsMode)));
}

#[test]
fn interleaved_takes_both() {
    let node = node(LFM25AudioMode::Interleaved);
    assert!(node.build_input(text("hello")).is_ok());
    assert!(node.build_input(audio(16_000)).is_ok());
    assert!(matches!(
        node.build_input(audio(48_000)),
        Err(NodeError::InputRate { expected: 16_000, got: 48_000 })
    ));
}

#[test]
fn other_data_is_refused_by_its_type() {
    let node = node(LFM25AudioMode::Interleaved);
    let data: RuntimeData<Vec<u8>> = RuntimeData::Json(json("{}"));
    assert_eq!(
        node.build_input(data).unwrap_err().message(),
        "LFM25AudioOnnxNode expects Audio, Text, or aux Json input; got json"
    );
    let data: RuntimeData<Vec<u8>> = RuntimeData::Other("video".to_string());
    assert!(matches!(
        node.build_input(data),
        Err(NodeError::UnsupportedInput(name)) if name == "video"
    ));
}

#[test]
fn turns_are_counted_by_session() {
    let mut node = LFM25AudioOnnxNode::with_config(LFM25AudioOnnxConfig {
        system_prompt: "Sing.".to_string(),
        ..LFM25AudioOnnxConfig::default()
    });
    assert!(matches!(node.accept(text("hello"), None), Ok(Accepted::Turn(_))));
    assert!(matches!(node.accept(text("hello"), Some("a".to_string())), Ok(Accepted::Turn(_))));
    // A refused turn counts too.
    assert!(matches!(node.accept(text(""), Some("a".to_string())), Err(NodeError::EmptyText)));
    let state = node.session("default").unwrap();
    assert_eq!(state.turn_count, 1);
    assert_eq!(state.system_prompt, "Sing.");
    assert_eq!(state.context, "");
    assert_eq!(node.session("a").unwrap().turn_count, 2);
    assert!(node.session("b").is_none());
}

#[test]
fn control_envelopes_are_no_turns() {
    let mut node = node(LFM25AudioMode::Asr);
    let barge_in: RuntimeData<Vec<u8>> =
        RuntimeData::Json(json("{\"__aux_port__\":\"barge_in\"}"));
    node.accept(audio(16_000), None).unwrap();
    assert!(matches!(node.accept(barge_in, None), Ok(Accepted::Control)));
    assert_eq!(node.session("default").unwrap().turn_count, 1);
    for port in ["context", "system_prompt", "reset"] {
        node.accept(audio(16_000), None).unwrap();
        let envelope: RuntimeData<Vec<u8>> = RuntimeData::Json(json(&format!(
            "{{\"__aux_port__\":\"{port}\",\"payload\":{{\"text\":\"x\"}}}}"
        )));
        assert!(node.handle_aux(&envelope));
        assert!(node.session("default").is_none());
    }
}

#[test]
fn json_without_a_port_is_a_refused_turn() {
    let mut node = node(LFM25AudioMode::Interleaved);
    let data: RuntimeData<Vec<u8>> = RuntimeData::Json(json("{\"payload\":1}"));
    assert!(!node.handle_aux(&data));
    assert!(matches!(node.accept(data, None), Err(NodeError::UnsupportedInput(_))));
    assert_eq!(node.session("default").unwrap().turn_count, 1);
    assert!(!node.handle_aux(&text("reset")));
}

#[test]
fn forgotten_sessions_begin_again() {
    let mut node = node(LFM25AudioMode::Interleaved);
    node.count_turn("a");
    node.count_turn("a");
    node.apply_control("reset");
    node.count_turn("a");
    assert_eq!(node.session("a").unwrap().turn_count, 1);
}

#[test]
fn sessions_without_a_name_share_one() {
    assert_eq!(LFM25AudioOnnxNode::session_key(None), "default");
    assert_eq!(LFM25AudioOnnxNode::session_key(Some("x".to_string())), "x");
}

#[test]
fn streams_end_with_both_marks() {
    let end = end_stream(3);
    assert_eq!(end.marks, vec!["<|text_end|>", "<|audio_end|>"]);
    assert_eq!(end.total, 5);
    assert_eq!(end_stream(0).total, 2);
}

#[test]
fn single_answers_need_an_output() {
    assert_eq!(require_output(Some(4)).unwrap(), 4);
    assert!(matches!(require_output::<u8>(None), Err(NodeError::NoOutput)));
}

#[test]
fn factory_falls_back_to_the_default_settings() {
    let factory = LFM25AudioOnnxNodeFactory;
    assert_eq!(factory.node_type(), "LFM25AudioOnnxNode");
    let node = factory.create(None);
    assert_eq!(node.node_type(), "LFM25AudioOnnxNode");
    assert_eq!(node.config().mode, LFM25AudioMode::Interleaved);
    assert_eq!(node.config().audio_batch_size, 12);
    let node = factory.create(Some(LFM25AudioOnnxConfig {
        mode: LFM25AudioMode::Asr,
        ..LFM25AudioOnnxConfig::default()
    }));
    assert_eq!(node.config().mode, LFM25AudioMode::Asr);
}
