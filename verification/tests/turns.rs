use lfm25_audio_onnx::codes::Frame;
use lfm25_audio_onnx::config::LFM25AudioOnnxConfig;
use lfm25_audio_onnx::turn::{AudioStamp, DecoderReadout, Turn, TurnRequest};

const IM_END: u32 = 7;
const AUDIO_START: u32 = 128;
const TEXT_END: u32 = 130;

const SOUND: Frame = [5; 8];
const SILENT_END: Frame = [2048, 1, 2, 3, 4, 5, 6, 7];

#[derive(Debug, PartialEq)]
enum Item {
    Text(Vec<u32>),
    Audio { frames: usize, pts_us: u64 },
}

/// What the decoder answers, run by run.
#[derive(Clone, Copy)]
enum Answer {
    Token(u32),
    Codes(Frame),
}

/// Runs a turn on scripted answers, with `samples_per_frame` samples of sound
/// for every frame. Returns what was given out, and the frames embedded.
fn drive(mut turn: Turn, script: &[Answer], samples_per_frame: usize) -> (Vec<Item>, Vec<Frame>, usize) {
    let mut items = Vec::new();
    let mut embedded = Vec::new();
    let mut at = 0;
    loop {
        match turn.request() {
            TurnRequest::RunDecoder { readout, .. } => {
                let answer = script[at];
                at += 1;
                match (readout, answer) {
                    (DecoderReadout::Logits, Answer::Token(token)) => turn.on_token(token),
                    (DecoderReadout::HiddenStates, Answer::Codes(frame)) => turn.on_codes(&frame),
                    _ => panic!("the turn asks for something else at {at}"),
                }
            }
            TurnRequest::EmbedToken(_) => turn.on_embedded(),
            TurnRequest::EmbedFrame(frame) => {
                embedded.push(frame);
                turn.on_embedded();
            }
            TurnRequest::DecodeText => {
                let tokens = turn.generated().clone();
                if turn.on_text("words") {
                    items.push(Item::Text(tokens));
                }
            }
            TurnRequest::Detokenize => {
                let frames = turn.batch().len();
                let AudioStamp { pts_us, channels, sample_rate } =
                    turn.on_waveform(frames * samples_per_frame);
                assert_eq!(channels, 1);
                assert_eq!(sample_rate, 24_000);
                items.push(Item::Audio { frames, pts_us });
            }
            TurnRequest::Finished(count) => {
                assert_eq!(count, items.len());
                return (items, embedded, at);
            }
        }
    }
}

fn config() -> LFM25AudioOnnxConfig {
    LFM25AudioOnnxConfig { audio_batch_size: 2, ..LFM25AudioOnnxConfig::default() }
}

#[test]
fn speech_begins_at_the_audio_marker() {
    let mut script = vec![Answer::Token(50), Answer::Token(AUDIO_START)];
    script.extend([Answer::Codes(SOUND); 5]);
    script.push(Answer::Codes(SILENT_END));
    let (items, embedded, runs) = drive(Turn::for_text(&config(), false, 9), &script, 1920);
    assert_eq!(
        items,
        vec![
            Item::Text(vec![50, AUDIO_START]),
            Item::Audio { frames: 2, pts_us: 0 },
            Item::Audio { frames: 2, pts_us: 160_000 },
            Item::Audio { frames: 1, pts_us: 320_000 },
        ]
    );
    assert_eq!(embedded, vec![SOUND; 5]);
    assert_eq!(runs, 8);
}

#[test]
fn speech_begins_at_the_end_of_text_too() {
    let script = [Answer::Token(TEXT_END), Answer::Codes(SOUND), Answer::Codes(SILENT_END)];
    let (items, _, _) = drive(Turn::for_text(&config(), false, 1), &script, 1);
    assert_eq!(items, vec![Item::Text(vec![TEXT_END]), Item::Audio { frames: 1, pts_us: 0 }]);
}

#[test]
fn speech_without_audio_gives_out_its_text() {
    let script = [Answer::Token(50), Answer::Token(51), Answer::Token(IM_END)];
    let (items, _, _) = drive(Turn::for_text(&config(), false, 1), &script, 1);
    assert_eq!(items, vec![Item::Text(vec![50, 51])]);
}

#[test]
fn speech_alone_keeps_its_text_back() {
    let mut script = vec![Answer::Token(50), Answer::Token(AUDIO_START)];
    script.extend([Answer::Codes(SOUND); 3]);
    script.push(Answer::Codes(SILENT_END));
    let (items, embedded, runs) = drive(Turn::for_text(&config(), true, 9), &script, 1920);
    assert_eq!(
        items,
        vec![Item::Audio { frames: 2, pts_us: 0 }, Item::Audio { frames: 1, pts_us: 160_000 }]
    );
    assert_eq!(embedded, vec![SOUND; 3]);
    assert_eq!(runs, 6);
    let script = [Answer::Token(50), Answer::Token(51), Answer::Token(IM_END)];
    let (items, _, _) = drive(Turn::for_text(&config(), true, 1), &script, 1);
    assert!(items.is_empty());
}

#[test]
fn turn_that_ends_at_once_gives_out_nothing() {
    let (items, _, runs) = drive(Turn::for_text(&config(), false, 1), &[Answer::Token(IM_END)], 1);
    assert!(items.is_empty());
    assert_eq!(runs, 1);
}

#[test]
fn first_chunk_has_its_own_size() {
    let settings = LFM25AudioOnnxConfig {
        audio_batch_size: 3,
        first_chunk_audio_batch_size: Some(1),
        ..LFM25AudioOnnxConfig::default()
    };
    let mut script = vec![Answer::Token(AUDIO_START)];
    script.extend([Answer::Codes(SOUND); 7]);
    script.push(Answer::Codes(SILENT_END));
    let (items, _, _) = drive(Turn::for_text(&settings, false, 1), &script, 24);
    assert_eq!(
        items[1..],
        [
            Item::Audio { frames: 1, pts_us: 0 },
            Item::Audio { frames: 3, pts_us: 1_000 },
            Item::Audio { frames: 3, pts_us: 4_000 },
        ]
    );
}

#[test]
fn codes_above_the_sound_range_are_brought_down() {
    let loud: Frame = [9, 3000, 2047, 2048, 0, 1, 2, 3];
    let script = [Answer::Token(AUDIO_START), Answer::Codes(loud), Answer::Codes(SILENT_END)];
    let (_, embedded, _) = drive(Turn::for_text(&config(), false, 1), &script, 1);
    assert_eq!(embedded, vec![[9, 2047, 2047, 2047, 0, 1, 2, 3]]);
}

#[test]
fn decoder_runs_are_limited_by_the_settings() {
    let settings = LFM25AudioOnnxConfig { max_new_tokens: 3, ..config() };
    let script = [Answer::Token(50); 3];
    let (items, _, runs) = drive(Turn::for_text(&settings, false, 1), &script, 1);
    assert_eq!(runs, 3);
    assert_eq!(items, vec![Item::Text(vec![50, 50, 50])]);
    let none = LFM25AudioOnnxConfig { max_new_tokens: 0, ..config() };
    assert!(matches!(Turn::for_text(&none, false, 1).request(), TurnRequest::Finished(0)));
}

#[test]
fn decoder_runs_are_limited_by_the_kind_of_turn() {
    let (_, _, on_text) = drive(Turn::for_text(&config(), false, 1), &vec![Answer::Token(50); 600], 1);
    assert_eq!(on_text, 512);
    let (_, _, on_audio) =
        drive(Turn::for_audio(&config(), false, 1), &vec![Answer::Token(50); 600], 1);
    assert_eq!(on_audio, 256);
}

#[test]
fn transcription_is_one_text() {
    let script =
        [Answer::Token(50), Answer::Token(TEXT_END), Answer::Token(AUDIO_START), Answer::Token(IM_END)];
    let (items, embedded, _) = drive(Turn::for_audio(&config(), false, 40), &script, 1);
    assert_eq!(items, vec![Item::Text(vec![50, TEXT_END, AUDIO_START])]);
    assert!(embedded.is_empty());
}

#[test]
fn interleaved_turns_alternate_by_runs() {
    let settings = LFM25AudioOnnxConfig { audio_batch_size: 12, ..LFM25AudioOnnxConfig::default() };
    let mut script = vec![Answer::Token(50); 6];
    script.extend([Answer::Codes(SOUND); 12]);
    script.extend([Answer::Token(51); 6]);
    script.extend([Answer::Codes(SOUND); 12]);
    script.push(Answer::Token(IM_END));
    let (items, _, _) = drive(Turn::for_audio(&settings, true, 40), &script, 1920);
    let first = vec![50; 6];
    let mut both = first.clone();
    both.extend([51; 6]);
    assert_eq!(
        items,
        vec![
            Item::Text(first),
            Item::Audio { frames: 12, pts_us: 0 },
            Item::Text(both.clone()),
            Item::Audio { frames: 12, pts_us: 960_000 },
            Item::Text(both),
        ]
    );
}

#[test]
fn end_of_text_leaves_the_rest_to_audio() {
    let mut script = vec![Answer::Token(50), Answer::Token(TEXT_END)];
    script.extend([Answer::Codes(SOUND); 20]);
    script.push(Answer::Codes(SILENT_END));
    script.push(Answer::Token(IM_END));
    let settings = LFM25AudioOnnxConfig { audio_batch_size: 10, ..LFM25AudioOnnxConfig::default() };
    let (items, embedded, _) = drive(Turn::for_audio(&settings, true, 40), &script, 1);
    assert_eq!(items.len(), 4);
    assert_eq!(items[0], Item::Text(vec![50, TEXT_END]));
    assert_eq!(items[1], Item::Audio { frames: 10, pts_us: 0 });
    assert_eq!(items[3], Item::Text(vec![50, TEXT_END]));
    // The mark itself is embedded, as nothing but marks.
    assert_eq!(embedded.last(), Some(&[2048; 8]));
}

#[test]
fn end_of_audio_goes_back_to_text() {
    let mut script = vec![Answer::Token(50); 6];
    script.push(Answer::Codes(SOUND));
    script.push(Answer::Codes(SILENT_END));
    script.push(Answer::Token(IM_END));
    let (items, _, _) = drive(Turn::for_audio(&config(), true, 40), &script, 1);
    assert_eq!(items.len(), 3);
    assert_eq!(items[2], Item::Audio { frames: 1, pts_us: 0 });
}

#[test]
fn audio_first_goes_over_after_one_token() {
    let settings = LFM25AudioOnnxConfig { audio_first_interleaved: true, ..config() };
    let script = [Answer::Token(50), Answer::Codes(SOUND), Answer::Codes(SILENT_END), Answer::Token(IM_END)];
    let (items, _, _) = drive(Turn::for_audio(&settings, true, 40), &script, 1);
    assert_eq!(items[0], Item::Text(vec![50]));
    assert!(matches!(items[2], Item::Audio { frames: 1, .. }));
}

#[test]
fn blank_text_is_not_given_out() {
    let mut turn = Turn::for_text(&config(), false, 1);
    turn.on_token(AUDIO_START);
    turn.on_embedded();
    assert!(!turn.on_text(" \n"));
    assert!(matches!(
        turn.request(),
        TurnRequest::RunDecoder { seq_len: 1, readout: DecoderReadout::HiddenStates }
    ));
}

#[test]
fn first_decoder_run_reads_the_prompt() {
    let mut turn = Turn::for_audio(&config(), true, 40);
    assert!(matches!(
        turn.request(),
        TurnRequest::RunDecoder { seq_len: 40, readout: DecoderReadout::Logits }
    ));
    turn.on_token(50);
    assert!(matches!(turn.request(), TurnRequest::EmbedToken(50)));
    turn.on_embedded();
    assert!(matches!(turn.request(), TurnRequest::RunDecoder { seq_len: 1, .. }));
}

#[test]
fn empty_chunks_are_given_out_where_every_frame_is_one() {
    // Without a chunk size even the end of audio gives out what there is.
    let settings = LFM25AudioOnnxConfig { audio_batch_size: 0, ..LFM25AudioOnnxConfig::default() };
    let script = [
        Answer::Token(TEXT_END),
        Answer::Codes(SOUND),
        Answer::Codes(SILENT_END),
        Answer::Token(IM_END),
    ];
    let (items, _, _) = drive(Turn::for_audio(&settings, true, 1), &script, 24_000);
    assert_eq!(
        items,
        vec![
            Item::Text(vec![TEXT_END]),
            Item::Audio { frames: 1, pts_us: 0 },
            Item::Audio { frames: 0, pts_us: 1_000_000 },
            Item::Text(vec![TEXT_END]),
        ]
    );
}

#[test]
fn samples_are_counted_as_they_are_given_out() {
    let mut turn = Turn::for_text(
        &LFM25AudioOnnxConfig { audio_batch_size: 1, ..LFM25AudioOnnxConfig::default() },
        false,
        1,
    );
    turn.on_token(AUDIO_START);
    turn.on_embedded();
    turn.on_text("hello");
    turn.on_codes(&SOUND);
    assert_eq!(turn.samples(), 0);
    turn.on_waveform(1920);
    assert_eq!(turn.samples(), 1920);
}

#[test]
fn runs_of_tokens_and_frames_are_short() {
    let mut turn = Turn::for_audio(&LFM25AudioOnnxConfig::default(), true, 1);
    let mut runs: Vec<(bool, usize)> = Vec::new();
    loop {
        match turn.request() {
            TurnRequest::RunDecoder { readout, .. } => {
                let audio = readout == DecoderReadout::HiddenStates;
                match runs.last_mut() {
                    Some((kind, count)) if *kind == audio => *count += 1,
                    _ => runs.push((audio, 1)),
                }
                if audio {
                    turn.on_codes(&SOUND);
                } else if runs.len() == 5 {
                    turn.on_token(TEXT_END);
                } else {
                    turn.on_token(50);
                }
            }
            TurnRequest::EmbedToken(_) | TurnRequest::EmbedFrame(_) => turn.on_embedded(),
            TurnRequest::DecodeText => {
                turn.on_text("words");
            }
            TurnRequest::Detokenize => {
                assert!(!turn.batch().is_empty());
                turn.on_waveform(1);
            }
            TurnRequest::Finished(_) => break,
        }
    }
    // The text ends in its third run; from there on there is audio alone.
    let expected = [(false, 6), (true, 12), (false, 6), (true, 12), (false, 1), (true, 256 - 37)];
    assert_eq!(runs, expected);
}
