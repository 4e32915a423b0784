//! The score: the instruments that play the distinct words and the events
//! of the timeline.
//!
//! The score holds whole numbers only. The times, pitches and frequencies
//! that the render engine is given are computed from them by whoever
//! writes the score out.

use crate::text::{code_point_sum, code_sum};
use crate::words::{slot, unique_words, word_id, WordMap, FIRST_ID};
use vstd::prelude::*;

verus! {

/// The code point of `m`. The pitch of a word is its mean code point
/// divided by this; the pitch of the empty word is 0.
pub const PITCH_BASE: u32 = 109;

/// The factor of the first control point of a tone's frequency: the point
/// is the product of the pitch, this factor and the length of the tone.
pub const START_FACTOR: u32 = 500;

/// The factor of the middle control point, which is formed like the first.
pub const MID_FACTOR: u32 = 2777;

/// The factor of the last control point: the point is the product of the
/// square root of the pitch, this factor and the length of the tone.
pub const END_FACTOR: u32 = 24885;

/// The ceiling below which the control points of a tone are kept.
pub const CONTROL_CEILING: u32 = 2000;

/// A control point of a tone: the whole part `raw` of its product, reduced
/// below the ceiling.
pub fn control_point(raw: u32) -> (point: u32)
    ensures
        point == raw % CONTROL_CEILING,
        point < CONTROL_CEILING,
{
    raw % CONTROL_CEILING
}

/// The definition of the instrument that plays one distinct word.
#[derive(Clone, Copy, Debug, PartialEq, Eq)]
pub struct Instrument {
    /// The id of the word.
    pub id: usize,
    /// The sample rate and the sample count of the word's clip; `None`
    /// where the word has no usable clip and is played as a tone.
    pub clip: Option<(u32, usize)>,
}

/// One occurrence of a word on the timeline. An event starts where the one
/// before it ends.
#[derive(Clone, Copy, Debug, PartialEq, Eq)]
pub struct Event {
    /// The id of the word.
    pub id: usize,
    /// The sum of the code points of the word.
    pub code_sum: u128,
    /// The number of characters of the word.
    pub length: usize,
    /// The sample rate and the sample count of the clip to play; `None`
    /// where a tone is played instead.
    pub clip: Option<(u32, usize)>,
}

/// What is handed to the render engine: the instrument definitions, then
/// the events in the order in which they sound. Written out, a score ends
/// with one terminator behind its last event.
#[derive(Clone, Debug, PartialEq, Eq)]
pub struct Score {
    pub instruments: Vec<Instrument>,
    pub events: Vec<Event>,
}

/// The measurement of the `k`-th job's clip; `None` where the list holds
/// none for it.
pub open spec fn clip_at(clips: Seq<Option<(u32, usize)>>, k: int) -> Option<(u32, usize)> {
    if 0 <= k < clips.len() {
        clips[k]
    } else {
        None
    }
}

/// The instrument of the `k`-th distinct word.
pub open spec fn instrument_at(
    words: Seq<Seq<char>>,
    clips: Seq<Option<(u32, usize)>>,
    k: int,
) -> Instrument {
    Instrument { id: (unique_words(words)[k] + FIRST_ID) as usize, clip: clip_at(clips, k) }
}

/// The event of the occurrence at position `i`.
pub open spec fn event_at(
    words: Seq<Seq<char>>,
    clips: Seq<Option<(u32, usize)>>,
    i: int,
) -> Event {
    Event {
        id: word_id(words, words[i]) as usize,
        code_sum: code_sum(words[i]) as u128,
        length: words[i].len() as usize,
        clip: clip_at(clips, slot(words, words[i])),
    }
}

/// One instrument for each distinct word, in ascending order of id.
pub open spec fn instruments_of(
    words: Seq<Seq<char>>,
    clips: Seq<Option<(u32, usize)>>,
) -> Seq<Instrument> {
    Seq::new(unique_words(words).len(), |k: int| instrument_at(words, clips, k))
}

/// One event for each occurrence, in the order of the text.
pub open spec fn events_of(words: Seq<Seq<char>>, clips: Seq<Option<(u32, usize)>>) -> Seq<
    Event,
> {
    Seq::new(words.len(), |i: int| event_at(words, clips, i))
}

impl WordMap {
    /// The score of the text, where `clips[k]` is the sample rate and the
    /// sample count measured on the clip of the `k`-th distinct word, or
    /// `None` where that word has no usable clip. Words beyond the end of
    /// `clips` have none.
    pub fn score(&self, clips: &Vec<Option<(u32, usize)>>) -> (score: Score)
        ensures
            score.instruments@ == instruments_of(self@, clips@),
            score.events@ == events_of(self@, clips@),
    {
        let mut instruments: Vec<Instrument> = Vec::new();
        let distinct = self.distinct();
        let mut k: usize = 0;
        while k < distinct
            invariant
                k <= distinct,
                distinct == unique_words(self@).len(),
                instruments.len() == k,
                forall|l: int|
                    0 <= l < k ==> #[trigger] instruments[l] == instrument_at(self@, clips@, l),
            decreases distinct - k,
        {
            let clip = if k < clips.len() {
                clips[k]
            } else {
                None
            };
            instruments.push(Instrument { id: self.position(k) + FIRST_ID, clip });
            k += 1;
        }
        let mut events: Vec<Event> = Vec::new();
        let n = self.len();
        let mut i: usize = 0;
        while i < n
            invariant
                i <= n,
                n == self@.len(),
                events.len() == i,
                forall|j: int| 0 <= j < i ==> #[trigger] events[j] == event_at(self@, clips@, j),
            decreases n - i,
        {
            let k = self.slot_at(i);
            let clip = if k < clips.len() {
                clips[k]
            } else {
                None
            };
            let word = self.word(i);
            events.push(
                Event {
                    id: self.id_at(i),
                    code_sum: code_point_sum(word),
                    length: word.len(),
                    clip,
                },
            );
            i += 1;
        }
        assert(instruments@ == instruments_of(self@, clips@));
        assert(events@ == events_of(self@, clips@));
        Score { instruments, events }
    }
}

} // verus!
