use lfm25_audio_onnx::sampling::{argmax, largest, mask_top_k, pick, sample_topk_temp};
use lfm25_audio_onnx::scalar::F32Bits;

fn bits(value: f32) -> F32Bits {
    F32Bits { bits: value.to_bits() }
}

fn value(bits: F32Bits) -> f32 {
    f32::from_bits(bits.bits)
}

fn list(values: &[f32]) -> Vec<F32Bits> {
    values.iter().map(|v| bits(*v)).collect()
}

fn sample(logits: &[f32], temperature: f32, top_k: usize, draw: f32) -> usize {
    let inv_temp = 1.0 / temperature;
    sample_topk_temp(
        &list(logits),
        bits(temperature),
        top_k,
        |l: F32Bits| bits(value(l) * inv_temp),
        |v: F32Bits, top: F32Bits| bits((value(v) - value(top)).exp()),
        |a: F32Bits, b: F32Bits| bits(value(a) + value(b)),
        |p: F32Bits, total: F32Bits| bits(value(p) / value(total)),
        || bits(draw),
    )
}

#[test]
fn greedy_choice_is_the_last_maximum() {
    assert_eq!(argmax(&list(&[])), 0);
    assert_eq!(argmax(&list(&[1.0, 3.0, 2.0])), 1);
    assert_eq!(argmax(&list(&[3.0, 1.0, 3.0])), 2);
    assert_eq!(argmax(&list(&[0.0, -0.0])), 0);
    assert_eq!(argmax(&list(&[1.0, f32::NAN, 2.0])), 1);
    assert_eq!(argmax(&list(&[f32::NEG_INFINITY, -5.0])), 1);
}

#[test]
fn cutoff_keeps_ties_of_the_kth_value() {
    let mut values = list(&[1.0, 4.0, 3.0, 3.0, 2.0]);
    let marks = mask_top_k(&mut values, 2);
    assert_eq!(marks, vec![false, true, true, true, false]);
    let kept: Vec<f32> = values.into_iter().map(value).collect();
    assert_eq!(kept, vec![f32::NEG_INFINITY, 4.0, 3.0, 3.0, f32::NEG_INFINITY]);
}

#[test]
fn cutoff_that_cuts_nothing() {
    let values = list(&[1.0, 4.0, 3.0]);
    for k in [0, 3, 9] {
        let mut kept = values.clone();
        assert_eq!(mask_top_k(&mut kept, k), vec![true; 3]);
        assert_eq!(kept, values);
    }
}

#[test]
fn largest_passes_over_what_is_not_a_number() {
    assert_eq!(value(largest(&list(&[]))), f32::NEG_INFINITY);
    assert_eq!(value(largest(&list(&[f32::NAN, -2.0, -3.0]))), -2.0);
    assert_eq!(value(largest(&list(&[f32::NAN]))), f32::NEG_INFINITY);
    assert_eq!(value(largest(&list(&[1.0, f32::INFINITY]))), f32::INFINITY);
}

#[test]
fn picks_the_first_share_above_the_draw() {
    let cumulative = list(&[0.25, 0.5, 1.0]);
    let all = vec![true; 3];
    assert_eq!(pick(bits(0.0), &cumulative, &all), 0);
    assert_eq!(pick(bits(0.25), &cumulative, &all), 1);
    assert_eq!(pick(bits(0.75), &cumulative, &all), 2);
    assert_eq!(pick(bits(0.999), &list(&[0.3, 0.6, 0.99]), &all), 2);
    assert_eq!(pick(bits(f32::NAN), &cumulative, &all), 2);
}

#[test]
fn picks_among_the_marked_alone() {
    let cumulative = list(&[0.25, 0.5, 0.99, 0.99]);
    assert_eq!(pick(bits(0.0), &cumulative, &vec![false, true, true, false]), 1);
    assert_eq!(pick(bits(0.999), &cumulative, &vec![true, true, true, false]), 2);
    assert_eq!(pick(bits(0.999), &cumulative, &vec![true, false, false, false]), 0);
}

#[test]
fn no_scores_choose_the_first_index() {
    assert_eq!(sample(&[], 1.0, 0, 0.5), 0);
}

#[test]
fn cold_sampling_is_greedy() {
    assert_eq!(sample(&[1.0, 5.0, 2.0], 0.0, 0, 0.99), 1);
    assert_eq!(sample(&[1.0, 5.0, 2.0], -1.0, 2, 0.0), 1);
}

#[test]
fn draws_follow_the_shares() {
    // Shares of e^0 and e^(ln 3): a quarter and three quarters.
    let logits = [0.0, 3.0f32.ln()];
    assert_eq!(sample(&logits, 1.0, 0, 0.0), 0);
    assert_eq!(sample(&logits, 1.0, 0, 0.24), 0);
    assert_eq!(sample(&logits, 1.0, 0, 0.26), 1);
    assert_eq!(sample(&logits, 1.0, 0, 0.99), 1);
}

#[test]
fn temperature_flattens_the_shares() {
    // At twice the temperature the ratio of the shares is the root of three.
    let logits = [0.0, 3.0f32.ln()];
    assert_eq!(sample(&logits, 2.0, 0, 0.36), 0);
    assert_eq!(sample(&logits, 2.0, 0, 0.37), 1);
}

#[test]
fn cut_scores_are_never_drawn() {
    let logits = [2.0, 1.0, 3.0, 0.5];
    for step in 0..100 {
        let choice = sample(&logits, 1.0, 2, step as f32 / 100.0);
        assert!(choice == 0 || choice == 2);
    }
    let closest_to_one = 1.0 - f32::EPSILON / 2.0;
    assert!(closest_to_one < 1.0);
    assert!(matches!(sample(&logits, 1.0, 2, closest_to_one), 0 | 2));
    // The shares add up to less than the draw.
    assert_eq!(sample(&[16.5, 0.0, -10.0], 1.0, 2, closest_to_one), 1);
}

#[test]
fn nothing_is_drawn_where_the_choice_is_settled() {
    for (logits, temperature) in [(vec![1.0, 2.0], 0.0f32), (vec![], 1.0)] {
        let choice = sample_topk_temp(
            &list(&logits),
            bits(temperature),
            1,
            |l: F32Bits| l,
            |v: F32Bits, _: F32Bits| v,
            |a: F32Bits, _: F32Bits| a,
            |p: F32Bits, _: F32Bits| p,
            || panic!("a number is drawn"),
        );
        assert_eq!(choice, if logits.is_empty() { 0 } else { 1 });
    }
}

#[test]
fn infinite_scores_fall_back_to_the_greedy_choice() {
    assert_eq!(sample(&[1.0, f32::INFINITY, 2.0], 1.0, 0, 0.0), 1);
    assert_eq!(sample(&[f32::NEG_INFINITY, f32::NEG_INFINITY], 1.0, 0, 0.0), 1);
    assert_eq!(sample(&[f32::NAN, 1.0], 1.0, 0, 0.9), 0);
}
