use lfm25_audio_onnx::cache::{
    clone_decoder_cache, init_decoder_cache, present_name, token_from_output, DecoderCache,
};
use lfm25_audio_onnx::codes::{
    clamp_frame, codebook_major, end_of_audio_frame, frame_from_codes, Frame,
};
use lfm25_audio_onnx::config::{EmbeddingMeta, LfmCoreConfig};
use lfm25_audio_onnx::depthformer::{depth_token, DepthOutputs, DepthRun};
use lfm25_audio_onnx::embedding::{
    audio_embeddings_sum, has_audio_rows, has_text_rows, last_row, read_f32_blob, sum_eight_rows,
    table_codes, text_embeddings,
};
use lfm25_audio_onnx::error::NodeError;
use lfm25_audio_onnx::prefix::PrefixCaches;
use lfm25_audio_onnx::turn::DecoderReadout;

fn layers() -> LfmCoreConfig {
    LfmCoreConfig {
        hidden_size: 64,
        num_attention_heads: 4,
        num_key_value_heads: 2,
        layer_types: vec!["conv".to_string(), "full_attention".to_string(), "conv".to_string()],
        ..LfmCoreConfig::default()
    }
}

#[test]
fn codes_are_clamped_to_sound() {
    assert_eq!(
        clamp_frame(&[0, 2047, 2048, 5000, -3, 1, 2, 3]),
        [0, 2047, 2047, 2047, -3, 1, 2, 3]
    );
    assert_eq!(end_of_audio_frame(), [2048; 8]);
}

#[test]
fn frames_need_a_code_for_each_codebook() {
    assert_eq!(frame_from_codes(&vec![1, 2, 3, 4, 5, 6, 7, 8]).unwrap(), [1, 2, 3, 4, 5, 6, 7, 8]);
    assert!(matches!(frame_from_codes(&vec![1; 7]), Err(NodeError::CodeCount(7))));
    assert!(matches!(frame_from_codes(&vec![1; 9]), Err(NodeError::CodeCount(9))));
    assert!(matches!(frame_from_codes(&Vec::new()), Err(NodeError::CodeCount(0))));
}

#[test]
fn detokenizer_input_runs_codebook_by_codebook() {
    let frames: Vec<Frame> = vec![[0, 1, 2, 3, 4, 5, 6, 7], [10, 11, 12, 13, 14, 15, 16, 17]];
    assert_eq!(
        codebook_major(&frames),
        vec![0, 10, 1, 11, 2, 12, 3, 13, 4, 14, 5, 15, 6, 16, 7, 17]
    );
    assert_eq!(codebook_major(&Vec::new()), Vec::<i64>::new());
}

#[test]
fn token_rows_are_laid_end_to_end() {
    let table: Vec<u8> = (0..12).collect();
    let meta = EmbeddingMeta { vocab_size: 4, hidden_size: 3 };
    assert_eq!(text_embeddings(&table, meta, &vec![2, 0]).unwrap(), vec![6, 7, 8, 0, 1, 2]);
    assert!(matches!(
        text_embeddings(&table, meta, &vec![1, 4, 9]),
        Err(NodeError::TokenOutsideVocab(4))
    ));
    assert_eq!(text_embeddings(&table, meta, &Vec::new()).unwrap(), Vec::<u8>::new());
}

#[test]
fn audio_rows_are_summed() {
    // One value per row, which is the number of the row.
    let rows: usize = 8 * 2049;
    let table: Vec<u64> = (0..rows as u64).collect();
    let meta = EmbeddingMeta { vocab_size: rows, hidden_size: 1 };
    let offsets: u64 = (0..8u64).map(|b| b * 2049).sum();
    let sum = |frame: Frame| {
        audio_embeddings_sum(&table, meta, &frame, 1, 0u64, |a: u64, b: u64| a + b).unwrap()[0]
    };
    assert_eq!(sum([0; 8]), offsets);
    assert_eq!(sum([1, 2, 3, 4, 5, 6, 7, 8]), offsets + 36);
    // Codes that name no entry count as the end of audio.
    assert_eq!(sum([2048; 8]), offsets + 8 * 2048);
    assert_eq!(sum([4000, -1, 2048, 2048, 2048, 2048, 2048, 2048]), offsets + 8 * 2048);
}

#[test]
fn audio_codes_without_a_row_are_refused() {
    let meta = EmbeddingMeta { vocab_size: 2050, hidden_size: 1 };
    let table: Vec<u64> = vec![1; 2050];
    assert!(matches!(
        audio_embeddings_sum(&table, meta, &[0; 8], 1, 0, |a: u64, b: u64| a + b),
        Err(NodeError::AudioIndexOutOfRange(4098))
    ));
}

#[test]
fn audio_sums_are_brought_to_the_hidden_width() {
    let rows: usize = 8 * 2049;
    let meta = EmbeddingMeta { vocab_size: rows, hidden_size: 2 };
    let table: Vec<u32> = vec![1; rows * 2];
    let plus = |a: u32, b: u32| a + b;
    assert_eq!(audio_embeddings_sum(&table, meta, &[0; 8], 3, 0, plus).unwrap(), vec![8, 8, 0]);
    assert_eq!(audio_embeddings_sum(&table, meta, &[0; 8], 1, 0, plus).unwrap(), vec![8]);
}

#[test]
fn rows_of_the_graph_are_summed() {
    assert_eq!(
        table_codes(&[0, 1, 2, 3, 4, 5, 6, 2048]),
        vec![0, 2050, 4100, 6150, 8200, 10_250, 12_300, 16_391]
    );
    let values: Vec<u32> = (0..16).collect();
    assert_eq!(sum_eight_rows(&values, 2, 0, |a: u32, b: u32| a + b), vec![56, 64]);
}

#[test]
fn weight_files_hold_little_endian_numbers() {
    let mut bytes = 1.5f32.to_le_bytes().to_vec();
    bytes.extend_from_slice(&(-0.25f32).to_le_bytes());
    let numbers = read_f32_blob("w.bin", &bytes).unwrap();
    let values: Vec<f32> = numbers.iter().map(|n| f32::from_bits(n.bits)).collect();
    assert_eq!(values, vec![1.5, -0.25]);
    bytes.push(0);
    match read_f32_blob("w.bin", &bytes) {
        Err(NodeError::UnalignedBlob { path, len }) => {
            assert_eq!(path, "w.bin");
            assert_eq!(len, 9);
        }
        other => panic!("{other:?}"),
    }
}

#[test]
fn last_row_leaves_the_rest_out() {
    assert_eq!(last_row(12, 4), (8, 12));
    assert_eq!(last_row(14, 4), (8, 12));
    assert_eq!(last_row(4, 4), (0, 4));
}

#[test]
fn cache_starts_with_a_slot_per_tensor() {
    let slots = init_decoder_cache(&layers());
    let seen: Vec<(&str, &str, &Vec<usize>)> =
        slots.iter().map(|s| (s.past.as_str(), s.present.as_str(), &s.shape)).collect();
    assert_eq!(
        seen,
        vec![
            ("past_conv.0", "present_conv.0", &vec![1, 64, 3]),
            ("past_key_values.1.key", "present.1.key", &vec![1, 2, 0, 16]),
            ("past_key_values.1.value", "present.1.value", &vec![1, 2, 0, 16]),
            ("past_conv.2", "present_conv.2", &vec![1, 64, 3]),
        ]
    );
}

#[test]
fn cache_names_go_in_and_come_out() {
    for slot in init_decoder_cache(&layers()) {
        assert_eq!(present_name(&slot.past).unwrap(), slot.present);
    }
    assert_eq!(present_name("logits"), None);
}

#[test]
fn decoder_runs_replace_the_cache() {
    let mut cache = DecoderCache::new(init_decoder_cache(&layers()), vec![0, 0, 0, 0]);
    let step = cache.plan_step(5, DecoderReadout::Logits, false);
    assert_eq!(step.total_len, 5);
    assert_eq!(step.readout, "logits");
    assert_eq!(
        step.cache_outputs,
        vec!["present_conv.0", "present.1.key", "present.1.value", "present_conv.2"]
    );
    cache.absorb(vec![Some(1), Some(2), Some(3), Some(4)], step.total_len).unwrap();
    assert_eq!(cache.values(), &vec![1, 2, 3, 4]);
    assert_eq!(cache.plan_step(1, DecoderReadout::HiddenStates, true).total_len, 6);
    assert_eq!(cache.plan_step(1, DecoderReadout::HiddenStates, true).readout, "hidden_states");
    assert_eq!(cache.plan_step(1, DecoderReadout::Logits, true).readout, "token_id");
}

#[test]
fn missing_cache_tensors_are_named() {
    let mut cache = DecoderCache::new(init_decoder_cache(&layers()), vec![7, 7, 7, 7]);
    match cache.absorb(vec![Some(1), None, None, Some(4)], 3) {
        Err(NodeError::MissingCacheTensor(name)) => assert_eq!(name, "present.1.key"),
        other => panic!("{other:?}"),
    }
    assert_eq!(cache.values(), &vec![7, 7, 7, 7]);
    assert_eq!(cache.plan_step(1, DecoderReadout::Logits, false).total_len, 1);
}

#[test]
fn copied_caches_go_their_own_way() {
    let mut cache = DecoderCache::new(init_decoder_cache(&layers()), vec![1, 2, 3, 4]);
    cache.absorb(vec![Some(5), Some(6), Some(7), Some(8)], 9).unwrap();
    let mut copy = cache.with_values(cache.values().clone());
    copy.absorb(vec![Some(0); 4], 10).unwrap();
    assert_eq!(cache.values(), &vec![5, 6, 7, 8]);
    assert_eq!(cache.plan_step(1, DecoderReadout::Logits, false).total_len, 10);
    assert_eq!(copy.plan_step(1, DecoderReadout::Logits, false).total_len, 11);
    assert_eq!(copy.slots().len(), 4);
}

#[test]
fn decoder_tokens_keep_their_low_bits() {
    assert_eq!(token_from_output(&vec![130, 5]).unwrap(), 130);
    assert_eq!(token_from_output(&vec![-1]).unwrap(), u32::MAX);
    assert_eq!(token_from_output(&vec![(1 << 32) + 7]).unwrap(), 7);
    assert!(matches!(token_from_output(&Vec::new()), Err(NodeError::EmptyDecoderToken)));
}

#[test]
fn depthformer_runs_are_chained_by_their_codes() {
    let mut run: DepthRun<u32> = DepthRun::new(0);
    assert_eq!(run.depth_slices().len(), 8192);
    for step in 0..8usize {
        let request = run.request(false).unwrap();
        assert_eq!(request.step, step);
        assert_eq!(request.prev_token, if step == 0 { 0 } else { 99 + step as i64 });
        assert_eq!(request.past_shape, [6, 1, 8, step, 32]);
        assert_eq!(request.seqlens, step as i32);
        assert_eq!(request.total_len, step as i32 + 1);
        let expected = match step {
            0 => vec!["logits", "depth_slices", "new_keys", "new_values"],
            7 => vec!["logits"],
            _ => vec!["logits", "new_keys", "new_values"],
        };
        assert_eq!(request.outputs, expected);
        assert!(run.frame().is_none());
        if step > 0 {
            assert_eq!(run.depth_slices(), &vec![42]);
            assert_eq!(run.past_keys(), &vec![step as u32 - 1]);
            assert_eq!(run.past_values(), &vec![step as u32 + 9]);
        }
        run.absorb(
            100 + step as i64,
            DepthOutputs {
                depth_slices: if step == 0 { Some(vec![42]) } else { None },
                new_keys: if step < 7 { Some(vec![step as u32]) } else { None },
                new_values: if step < 7 { Some(vec![step as u32 + 10]) } else { None },
            },
        );
    }
    assert!(run.request(false).is_none());
    assert_eq!(run.frame().unwrap(), [100, 101, 102, 103, 104, 105, 106, 107]);
}

#[test]
fn depthformer_that_picks_codes_is_asked_for_them() {
    let run: DepthRun<u32> = DepthRun::new(0);
    assert_eq!(run.request(true).unwrap().outputs[0], "token_id");
    assert_eq!(depth_token(&vec![2048, 1]).unwrap(), 2048);
    assert!(matches!(depth_token(&Vec::new()), Err(NodeError::EmptyDepthformerToken)));
}

#[test]
fn short_tables_are_told() {
    let meta = EmbeddingMeta { vocab_size: 4, hidden_size: 3 };
    assert!(has_text_rows(12, meta, &vec![3, 0]));
    assert!(!has_text_rows(11, meta, &vec![0, 3]));
    // What lies behind a token outside the vocabulary is never read.
    assert!(has_text_rows(3, meta, &vec![0, 4, 3]));
    assert!(has_text_rows(0, EmbeddingMeta { vocab_size: 4, hidden_size: 0 }, &vec![3]));
    let meta = EmbeddingMeta { vocab_size: 8 * 2049, hidden_size: 2 };
    assert!(has_audio_rows(8 * 2049 * 2, meta, &[2048; 8]));
    assert!(!has_audio_rows(8 * 2049 * 2 - 1, meta, &[2048; 8]));
    assert!(has_audio_rows(8 * 2049 * 2 - 1, meta, &[0; 8]));
    assert!(has_audio_rows(2, EmbeddingMeta { vocab_size: 1, hidden_size: 2 }, &[0; 8]));
}

#[test]
fn prompts_read_before_are_found_again() {
    let mut caches: PrefixCaches<u32> = PrefixCaches::new();
    assert!(caches.find("a").is_none());
    let mut cache = DecoderCache::new(init_decoder_cache(&layers()), vec![1, 2, 3, 4]);
    cache.absorb(vec![Some(5), Some(6), Some(7), Some(8)], 9).unwrap();
    caches.keep("a", cache);
    let found = caches.find("a").unwrap();
    assert_eq!(found.values(), &vec![5, 6, 7, 8]);
    assert_eq!(found.total_len(), 9);
    assert!(caches.find("b").is_none());
}

fn cache_of(values: [u32; 4], total_len: usize) -> DecoderCache<u32> {
    let mut cache = DecoderCache::new(init_decoder_cache(&layers()), vec![0; 4]);
    cache.absorb(values.iter().map(|value| Some(*value)).collect(), total_len).unwrap();
    cache
}

#[test]
fn caches_are_copied_tensor_by_tensor() {
    let cache = cache_of([5, 6, 7, 8], 9);
    let copy = |_: &String, value: &u32| -> Result<u32, String> { Ok(*value + 100) };
    let cloned = clone_decoder_cache(&cache, &copy).unwrap();
    assert_eq!(cloned.values(), &vec![105, 106, 107, 108]);
    assert_eq!(cloned.total_len(), 9);
    let names = |cache: &DecoderCache<u32>| -> Vec<String> {
        cache.slots().iter().map(|slot| slot.past.clone()).collect()
    };
    assert_eq!(names(&cloned), names(&cache));
    let fails = |name: &String, value: &u32| -> Result<u32, String> {
        if *value < 7 {
            Ok(*value)
        } else {
            Err(name.clone())
        }
    };
    assert_eq!(clone_decoder_cache(&cache, &fails).unwrap_err(), cache.slots()[2].past);
}

#[test]
fn prefixes_are_read_once() {
    let copy = |_: &String, value: &u32| -> Result<u32, String> { Ok(*value) };
    let mut caches: PrefixCaches<u32> = PrefixCaches::new();
    let first = caches.audio_prefix_cache("a", || Ok(cache_of([5, 6, 7, 8], 9)), copy).unwrap();
    let other = caches.audio_prefix_cache("b", || Ok(cache_of([1, 1, 1, 1], 2)), copy).unwrap();
    assert_eq!(other.total_len(), 2);
    let again = caches.audio_prefix_cache("a", || panic!("the prefix is read again"), copy).unwrap();
    assert_eq!(first.values(), &vec![5, 6, 7, 8]);
    assert_eq!(again.values(), first.values());
    assert_eq!(again.total_len(), first.total_len());
    assert_eq!(again.slots().len(), first.slots().len());
}

#[test]
fn failed_reads_keep_nothing() {
    let copy = |_: &String, value: &u32| -> Result<u32, String> { Ok(*value) };
    let fails = |_: &String, _: &u32| -> Result<u32, String> { Err("copy".to_string()) };
    let mut caches: PrefixCaches<u32> = PrefixCaches::new();
    assert_eq!(
        caches.audio_prefix_cache("a", || Err("read".to_string()), copy).unwrap_err(),
        "read"
    );
    assert!(caches.find("a").is_none());
    assert_eq!(
        caches.audio_prefix_cache("a", || Ok(cache_of([1, 2, 3, 4], 5)), fails).unwrap_err(),
        "copy"
    );
    assert!(caches.find("a").is_none());
    caches.audio_prefix_cache("a", || Ok(cache_of([1, 2, 3, 4], 5)), copy).unwrap();
    assert_eq!(caches.find("a").unwrap().values(), &vec![1, 2, 3, 4]);
    assert_eq!(
        caches.audio_prefix_cache("a", || panic!("read"), fails).unwrap_err(),
        "copy"
    );
    assert!(caches.find("a").is_some());
}
