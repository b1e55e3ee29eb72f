//! Audio frames: one code per codebook.

use crate::error::NodeError;
use vstd::prelude::*;

verus! {

/// Number of codebooks, and so of codes in a frame.
pub const NUM_CODEBOOKS: usize = 8;

/// Number of entries of a codebook, the end-of-audio mark among them.
pub const CODEBOOK_VOCAB: usize = 2049;

/// The code that marks the end of audio.
pub const END_OF_AUDIO_TOKEN: i64 = 2048;

/// The largest code that stands for sound.
pub const LAST_SOUND_CODE: i64 = 2047;

/// One code for each codebook.
pub type Frame = [i64; 8];

/// The views of a list of frames.
pub open spec fn frame_views(frames: Seq<Frame>) -> Seq<Seq<i64>> {
    frames.map_values(|frame: Frame| frame@)
}

/// Whether a frame marks the end of audio.
pub open spec fn ends_audio(frame: Seq<i64>) -> bool {
    frame[0] == END_OF_AUDIO_TOKEN
}

/// `frame` with every code brought down to the largest that stands for sound.
pub open spec fn clamped(frame: Seq<i64>) -> Seq<i64> {
    frame.map_values(|code: i64| if code < LAST_SOUND_CODE { code } else { LAST_SOUND_CODE })
}

/// The frame that holds nothing but end-of-audio marks.
pub open spec fn end_frame() -> Seq<i64> {
    Seq::new(8, |i: int| END_OF_AUDIO_TOKEN)
}

/// Brings every code down to the largest that stands for sound.
pub fn clamp_frame(frame: &Frame) -> (sound: Frame)
    ensures
        sound@ == clamped(frame@),
{
    let mut sound: Frame = *frame;
    for i in 0..8usize
        invariant
            sound@.len() == 8,
            frame@.len() == 8,
            forall|j: int| 0 <= j < i ==> #[trigger] sound@[j] == clamped(frame@)[j],
            forall|j: int| i <= j < 8 ==> #[trigger] sound@[j] == frame@[j],
    {
        if sound[i] > LAST_SOUND_CODE {
            sound[i] = LAST_SOUND_CODE;
        }
    }
    assert(sound@ =~= clamped(frame@));
    sound
}

/// A frame of end-of-audio marks.
pub fn end_of_audio_frame() -> (frame: Frame)
    ensures
        frame@ == end_frame(),
{
    let frame: Frame = [END_OF_AUDIO_TOKEN; 8];
    assert(frame@ =~= end_frame());
    frame
}

/// The frame behind the codes of the unrolled depthformer, which has to
/// return one for each codebook.
pub fn frame_from_codes(codes: &Vec<i64>) -> (frame: Result<Frame, NodeError>)
    ensures
        codes@.len() == 8 ==> (frame matches Ok(f) && f@ == codes@),
        codes@.len() != 8 ==> frame == Err::<Frame, NodeError>(NodeError::CodeCount(codes.len())),
{
    if codes.len() != NUM_CODEBOOKS {
        return Err(NodeError::CodeCount(codes.len()));
    }
    let mut frame: Frame = [0; 8];
    for i in 0..8usize
        invariant
            codes@.len() == 8,
            frame@.len() == 8,
            forall|j: int| 0 <= j < i ==> #[trigger] frame@[j] == codes@[j],
    {
        frame[i] = codes[i];
    }
    assert(frame@ =~= codes@);
    Ok(frame)
}

/// Whether `flat` holds the codes of `frames`, codebook by codebook.
pub open spec fn is_codebook_major(frames: Seq<Frame>, flat: Seq<i64>) -> bool {
    &&& flat.len() == 8 * frames.len()
    &&& forall|book: int, at: int|
        0 <= book < 8 && 0 <= at < frames.len() ==> #[trigger] flat[book * frames.len() + at] == (
        #[trigger] frames[at])@[book]
}

/// The codes of `frames`, codebook by codebook: first the first code of every
/// frame, then the second of every frame, and so on.
pub fn codebook_major(frames: &Vec<Frame>) -> (flat: Vec<i64>)
    ensures
        is_codebook_major(frames@, flat@),
        flat@.len() == 8 * frames@.len(),
        forall|book: int, at: int|
            0 <= book < 8 && 0 <= at < frames@.len() ==> #[trigger] flat@[book * frames@.len() + at]
                == (#[trigger] frames@[at])@[book],
{
    let mut flat: Vec<i64> = Vec::new();
    let n: usize = frames.len();
    for book in 0..8usize
        invariant
            n == frames@.len(),
            flat@.len() == book * n,
            forall|b: int, t: int|
                0 <= b < book && 0 <= t < n ==> #[trigger] flat@[b * n + t] == (
                #[trigger] frames@[t])@[b],
    {
        for at in 0..n
            invariant
                n == frames@.len(),
                book < 8,
                flat@.len() == book * n + at,
                forall|b: int, t: int|
                    (0 <= b < book && 0 <= t < n) || (b == book && 0 <= t < at)
                        ==> #[trigger] flat@[b * n + t] == (#[trigger] frames@[t])@[b],
        {
            let ghost before = flat@;
            flat.push(frames[at][book]);
            assert forall|b: int, t: int|
                (0 <= b < book && 0 <= t < n) || (b == book && 0 <= t < at + 1) implies
                #[trigger] flat@[b * n + t] == (#[trigger] frames@[t])@[b] by {
                if b < book {
                    assert(b * n + t < book * n) by (nonlinear_arith)
                        requires
                            0 <= b < book,
                            0 <= t < n,
                    ;
                    assert(before[b * n + t] == frames@[t]@[b]);
                } else if t < at {
                    assert(before[b * n + t] == frames@[t]@[b]);
                }
                assert(b * n + t >= 0) by (nonlinear_arith)
                    requires
                        0 <= b,
                        0 <= t,
                        0 <= n,
                ;
            }
        }
        assert(book * n + n == (book + 1) * n) by (nonlinear_arith);
    }
    flat
}

/// A code is left alone up to 2047, and everything above it becomes 2047; no
/// code is lost or moved.
pub proof fn clamping_lowers_codes_to_the_last_sound(frame: Seq<i64>, book: int)
    requires
        0 <= book < frame.len(),
    ensures
        clamped(frame).len() == frame.len(),
        frame[book] <= 2047 ==> clamped(frame)[book] == frame[book],
        frame[book] > 2047 ==> clamped(frame)[book] == 2047,
{
}

/// Audio ends with a frame whose first code is 2048, and with no other; the
/// frame that is fed back for it holds 2048 in all eight codebooks.
pub proof fn audio_ends_with_the_mark(frame: Seq<i64>, book: int)
    requires
        frame.len() > 0,
        0 <= book < 8,
    ensures
        ends_audio(frame) <==> frame[0] == 2048,
        end_frame().len() == 8,
        end_frame()[book] == 2048,
        ends_audio(end_frame()),
{
}

/// The frames that are handed on are the ones that were kept, in their order.
pub proof fn frames_keep_their_order(frames: Seq<Frame>, at: int)
    requires
        0 <= at < frames.len(),
    ensures
        frame_views(frames).len() == frames.len(),
        frame_views(frames)[at] == frames[at]@,
{
}

/// The codes that go to the detokenizer stand codebook by codebook, and in each
/// codebook frame by frame: with `n` frames, the code at place `k` is that of
/// codebook `k` / `n` in frame `k` % `n`.
pub proof fn codes_stand_codebook_by_codebook(frames: Seq<Frame>, flat: Seq<i64>, k: int)
    requires
        is_codebook_major(frames, flat),
        0 <= k < 8 * frames.len(),
    ensures
        flat.len() == 8 * frames.len(),
        0 <= k / frames.len() as int <= 7,
        0 <= k % frames.len() as int,
        k % (frames.len() as int) < frames.len(),
        flat[k] == frames[k % frames.len() as int]@[k / frames.len() as int],
{
    let n = frames.len() as int;
    vstd::arithmetic::div_mod::lemma_fundamental_div_mod(k, n);
    vstd::arithmetic::div_mod::lemma_mod_bound(k, n);
    let book = k / n;
    let at = k % n;
    assert(0 <= book < 8) by (nonlinear_arith)
        requires
            k == n * book + at,
            0 <= at < n,
            0 <= k < 8 * n,
    ;
    assert(book * n + at == k) by (nonlinear_arith)
        requires
            k == n * book + at,
    ;
    assert(flat[book * frames.len() + at] == frames[at]@[book]);
}

} // verus!
