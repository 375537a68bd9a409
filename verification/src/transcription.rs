//! The integer side of SenseVoice speech recognition: the checks on the input audio, how
//! many feature frames it yields, the model's language id, and the collapse of the
//! per-frame CTC labels into tokens. The features themselves are floating point and are
//! computed outside this library.
use vstd::prelude::*;
use crate::text::{decimal, push_decimal, push_str, str_eq};

verus! {

/// Samples in one analysis frame (25 ms at 16 kHz).
pub const FRAME_LENGTH_SAMPLES: usize = 400;

/// Samples between the starts of two frames (10 ms at 16 kHz).
pub const FRAME_SHIFT_SAMPLES: usize = 160;

/// Refuses audio the model cannot take: it must be sampled at 16 kHz and hold at least one
/// frame of samples.
pub fn check_audio_input(sample_rate: u32, sample_count: usize) -> (r: Result<(), String>)
    ensures
        sample_rate != 16000 ==> (r matches Err(e) && e@ == "SenseVoice requires 16kHz audio, got "@
            + decimal(sample_rate as nat) + "Hz"@),
        sample_rate == 16000 && sample_count < FRAME_LENGTH_SAMPLES ==> (r matches Err(e) && e@
            == "Audio too short for feature extraction (need at least 400 samples)"@),
        sample_rate == 16000 && sample_count >= FRAME_LENGTH_SAMPLES ==> r is Ok,
{
    if sample_rate != 16000 {
        let mut m = String::new();
        push_str(&mut m, "SenseVoice requires 16kHz audio, got ");
        push_decimal(&mut m, sample_rate as u64);
        push_str(&mut m, "Hz");
        return Err(m);
    }
    if sample_count < FRAME_LENGTH_SAMPLES {
        return Err("Audio too short for feature extraction (need at least 400 samples)".to_owned());
    }
    Ok(())
}

/// The number of filterbank frames `sample_count` samples give: none below one frame, else
/// one per frame shift that still leaves a whole frame.
pub fn fbank_frame_count(sample_count: usize) -> (r: usize)
    ensures
        r == (if sample_count < FRAME_LENGTH_SAMPLES {
            0
        } else {
            (sample_count - FRAME_LENGTH_SAMPLES) / (FRAME_SHIFT_SAMPLES as int) + 1
        }),
{
    if sample_count < FRAME_LENGTH_SAMPLES {
        0
    } else {
        (sample_count - FRAME_LENGTH_SAMPLES) / FRAME_SHIFT_SAMPLES + 1
    }
}

/// The number of stacked frames low-frame-rate stacking makes of `in_frames` frames with
/// the given window and shift: none when there is not one whole window.
pub fn lfr_frame_count(in_frames: usize, window_size: usize, window_shift: usize) -> (r: usize)
    requires
        window_shift > 0,
        in_frames < window_size || (in_frames - window_size) / (window_shift as int) < usize::MAX,
    ensures
        r == (if in_frames < window_size {
            0
        } else {
            (in_frames - window_size) / (window_shift as int) + 1
        }),
{
    if in_frames < window_size {
        0
    } else {
        (in_frames - window_size) / window_shift + 1
    }
}

/// The language ids a SenseVoice model's metadata declares.
#[derive(Clone, Copy, Debug)]
pub struct LanguageIds {
    pub auto: i32,
    pub zh: i32,
    pub en: i32,
    pub ja: i32,
    pub ko: i32,
    pub yue: i32,
}

/// The id of a language name: `zh`, `en`, `ja`, `ko` and `yue` have their own; any other
/// name means automatic detection.
pub open spec fn language_id(ids: LanguageIds, language: Seq<char>) -> i32 {
    if language == "zh"@ {
        ids.zh
    } else if language == "en"@ {
        ids.en
    } else if language == "ja"@ {
        ids.ja
    } else if language == "ko"@ {
        ids.ko
    } else if language == "yue"@ {
        ids.yue
    } else {
        ids.auto
    }
}

/// The model's id for the language named `language` (see `language_id`).
pub fn resolve_language_id(ids: &LanguageIds, language: &str) -> (r: i32)
    ensures
        r == language_id(*ids, language@),
{
    if str_eq(language, "zh") {
        ids.zh
    } else if str_eq(language, "en") {
        ids.en
    } else if str_eq(language, "ja") {
        ids.ja
    } else if str_eq(language, "ko") {
        ids.ko
    } else if str_eq(language, "yue") {
        ids.yue
    } else {
        ids.auto
    }
}

/// The tokens greedy CTC decoding keeps of the per-frame labels `ids`: a label is kept when
/// it is not the blank and differs from the label of the frame before (the first frame is
/// compared with -1).
pub open spec fn ctc_collapse(ids: Seq<i64>, blank: i64) -> Seq<i64>
    decreases ids.len(),
{
    if ids.len() == 0 {
        Seq::empty()
    } else {
        let y = ids.last();
        let prev: i64 = if ids.len() >= 2 {
            ids[ids.len() - 2]
        } else {
            -1i64
        };
        ctc_collapse(ids.drop_last(), blank) + if y != blank && y != prev {
            seq![y]
        } else {
            Seq::empty()
        }
    }
}

/// Collapses per-frame labels into tokens (see `ctc_collapse`).
pub fn ctc_collapse_labels(ids: &Vec<i64>, blank: i64) -> (r: Vec<i64>)
    ensures
        r@ == ctc_collapse(ids@, blank),
{
    let mut out: Vec<i64> = Vec::new();
    let mut prev: i64 = -1;
    let mut i: usize = 0;
    while i < ids.len()
        invariant
            i <= ids@.len(),
            out@ == ctc_collapse(ids@.take(i as int), blank),
            prev == (if i > 0 {
                ids@[i - 1]
            } else {
                -1i64
            }),
        decreases ids.len() - i,
    {
        let y = ids[i];
        assert(ids@.take(i + 1).drop_last() =~= ids@.take(i as int));
        assert(ids@.take(i + 1).last() == y);
        if y != blank && y != prev {
            out.push(y);
        }
        prev = y;
        i = i + 1;
    }
    assert(ids@.take(ids@.len() as int) =~= ids@);
    out
}

} // verus!
