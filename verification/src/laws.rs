//! What holds of every schedule and every score, whatever the text, the
//! registry and the outcome of the synthesis calls, and what holds of the
//! clip files, of the handshake with the speech server and of plain
//! waveform files.

use crate::backend::{
    after_end, after_lines, clip_path, contains_marker, failure, ready_marker, Startup,
};
use crate::error::Error;
use crate::scheduler::{jobs_of, voice_index};
use crate::score::{event_at, events_of, instruments_of};
use crate::text::{
    contains, decimal, join, lemma_decimal_value, lemma_split_nonempty, split, Separator,
};
use crate::voices::VoiceView;
use crate::wave::{
    chunk_at, clip_in, data_tag, find_chunk, fmt_tag, form_end, le16, le32, readable, wave_tag,
    Walk, FORMAT_FLOAT, FORMAT_PCM,
};
use crate::words::{
    last_index, lemma_last_index, lemma_last_index_of_occurrence, lemma_last_positions,
    lemma_slot, slot, unique_words, word_id, FIRST_ID,
};
use vstd::prelude::*;

verus! {

/// In a registry that holds a voice, the voice selected for a word is one
/// of the registry, whatever the word.
pub proof fn lemma_voice_in_registry(n: int, w: Seq<char>)
    requires
        n > 0,
    ensures
        0 <= voice_index(n, w) < n,
{
}

/// The distinct words as texts, in ascending order of id.
pub open spec fn distinct_texts(words: Seq<Seq<char>>) -> Seq<Seq<char>> {
    Seq::new(unique_words(words).len(), |k: int| words[unique_words(words)[k]])
}

/// No text stands twice among the distinct words, and every word of the
/// text is one of them.
pub proof fn lemma_distinct_texts(words: Seq<Seq<char>>)
    ensures
        distinct_texts(words).no_duplicates(),
        distinct_texts(words).to_set() == words.to_set(),
        distinct_texts(words).len() == words.to_set().len(),
{
    let u = unique_words(words);
    let d = distinct_texts(words);
    lemma_last_positions(words, words.len() as int);
    assert forall|k: int, l: int| 0 <= k < d.len() && 0 <= l < d.len() && k != l implies d[k]
        != d[l] by {
        assert(last_index(words, words[u[k]]) == u[k]);
        assert(last_index(words, words[u[l]]) == u[l]);
        if k < l {
            assert(u[k] < u[l]);
        } else {
            assert(u[l] < u[k]);
        }
    }
    assert forall|w: Seq<char>| d.to_set().contains(w) <==> words.to_set().contains(w) by {
        if d.contains(w) {
            let k = choose|k: int| 0 <= k < d.len() && d[k] == w;
            assert(0 <= u[k] < words.len());
            assert(words[u[k]] == w);
        }
        if words.contains(w) {
            let i = choose|i: int| 0 <= i < words.len() && words[i] == w;
            lemma_slot(words, i);
            lemma_last_index_of_occurrence(words, i);
            assert(d[slot(words, w)] == w);
        }
    }
    assert(d.to_set() =~= words.to_set());
    d.unique_seq_to_set();
}

/// A word that occurs at one or more positions is synthesized exactly once:
/// one job holds its text, and the id of that job is two more than the last
/// of those positions.
pub proof fn lemma_one_job_per_word(voices: Seq<VoiceView>, words: Seq<Seq<char>>, i: int)
    requires
        0 <= i < words.len(),
    ensures
        forall|j: int|
            0 <= j < words.len() && words[j] == words[i] ==> j <= last_index(words, words[i]),
        0 <= slot(words, words[i]) < jobs_of(voices, words).len(),
        jobs_of(voices, words)[slot(words, words[i])].word == words[i],
        jobs_of(voices, words)[slot(words, words[i])].id == last_index(words, words[i]) + 2,
        forall|k: int|
            0 <= k < jobs_of(voices, words).len() && (#[trigger] jobs_of(voices, words)[k]).word
                == words[i] ==> k == slot(words, words[i]),
        jobs_of(voices, words).len() == words.to_set().len(),
{
    let w = words[i];
    let jobs = jobs_of(voices, words);
    lemma_last_index(words, w);
    lemma_last_index_of_occurrence(words, i);
    lemma_slot(words, i);
    lemma_distinct_texts(words);
    let d = distinct_texts(words);
    assert(d[slot(words, w)] == w);
    assert forall|k: int| 0 <= k < jobs.len() && (#[trigger] jobs[k]).word == w implies k == slot(
        words,
        w,
    ) by {
        assert(d[k] == w);
    }
}

/// The shape of a score: one event for each occurrence, in the order of
/// the text, and one instrument for each distinct word. The event of an
/// occurrence carries the id and the clip of the one instrument defined
/// for its word, and two occurrences share an instrument only where they
/// hold the same word. No id is below the first one that words are given.
pub proof fn lemma_score_structure(
    words: Seq<Seq<char>>,
    clips: Seq<Option<(u32, usize)>>,
    i: int,
    j: int,
)
    requires
        0 <= i < words.len(),
        0 <= j < words.len(),
    ensures
        events_of(words, clips).len() == words.len(),
        instruments_of(words, clips).len() == words.to_set().len(),
        events_of(words, clips)[i] == event_at(words, clips, i),
        0 <= slot(words, words[i]) < instruments_of(words, clips).len(),
        instruments_of(words, clips)[slot(words, words[i])].id == events_of(words, clips)[i].id,
        instruments_of(words, clips)[slot(words, words[i])].clip == events_of(words, clips)[i].clip,
        words[i] == words[j] <==> slot(words, words[i]) == slot(words, words[j]),
        words[i] == words[j] <==> word_id(words, words[i]) == word_id(words, words[j]),
        FIRST_ID + i <= word_id(words, words[i]) < FIRST_ID + words.len(),
{
    lemma_distinct_texts(words);
    lemma_slot(words, i);
    lemma_slot(words, j);
    lemma_last_index_of_occurrence(words, i);
    lemma_last_index_of_occurrence(words, j);
}

/// A synthesis call that fails turns the events of its own word into
/// tones and changes nothing else: every event keeps its id, and the
/// events and instruments of all other words stay as they were.
pub proof fn lemma_failure_is_local(
    words: Seq<Seq<char>>,
    clips: Seq<Option<(u32, usize)>>,
    failed: int,
)
    requires
        0 <= failed < clips.len(),
    ensures
        forall|i: int|
            0 <= i < words.len() ==> (#[trigger] events_of(words, clips.update(failed, None))[i]).id
                == events_of(words, clips)[i].id,
        forall|i: int|
            0 <= i < words.len() && slot(words, words[i]) != failed ==> #[trigger] events_of(
                words,
                clips.update(failed, None),
            )[i] == events_of(words, clips)[i],
        forall|i: int|
            0 <= i < words.len() && slot(words, words[i]) == failed ==> (#[trigger] events_of(
                words,
                clips.update(failed, None),
            )[i]).clip is None,
        forall|k: int|
            0 <= k < unique_words(words).len() && k != failed ==> #[trigger] instruments_of(
                words,
                clips.update(failed, None),
            )[k] == instruments_of(words, clips)[k],
        forall|k: int|
            0 <= k < unique_words(words).len() ==> (#[trigger] instruments_of(
                words,
                clips.update(failed, None),
            )[k]).id == instruments_of(words, clips)[k].id,
{
}

/// Two words with different ids are spoken into different files.
pub proof fn lemma_clip_paths_differ(a: nat, b: nat)
    requires
        clip_path(a) == clip_path(b),
    ensures
        a == b,
{
    reveal_strlit("wav/");
    reveal_strlit(".wav");
    lemma_decimal_value(a);
    lemma_decimal_value(b);
    assert(clip_path(a).len() == 8 + decimal(a).len());
    assert(clip_path(b).len() == 8 + decimal(b).len());
    assert(clip_path(a).subrange(4, 4 + decimal(a).len() as int) == decimal(a));
    assert(clip_path(b).subrange(4, 4 + decimal(b).len() as int) == decimal(b));
}

/// No piece holds a separator.
pub proof fn lemma_split_pieces(s: Seq<char>, sep: Separator)
    ensures
        forall|i: int, k: int|
            0 <= i < split(s, sep).len() && 0 <= k < split(s, sep)[i].len() ==> !sep.holds(
                #[trigger] split(s, sep)[i][k],
            ),
    decreases s.len(),
{
    if s.len() > 0 {
        lemma_split_pieces(s.drop_last(), sep);
        lemma_split_nonempty(s.drop_last(), sep);
    }
}

/// Splitting at one character loses nothing: the pieces, joined by that
/// character, are the text.
pub proof fn lemma_split_joins(s: Seq<char>, c: char)
    ensures
        join(split(s, Separator::Char(c)), c) == s,
    decreases s.len(),
{
    let sep = Separator::Char(c);
    if s.len() > 0 {
        let before = split(s.drop_last(), sep);
        let now = split(s, sep);
        lemma_split_joins(s.drop_last(), c);
        lemma_split_nonempty(s.drop_last(), sep);
        if sep.holds(s.last()) {
            assert(now.drop_last() == before);
            assert(join(now, c) == s.drop_last().push(c) + Seq::<char>::empty());
        } else if before.len() == 1 {
            assert(join(now, c) == before[0].push(s.last()));
        } else {
            assert(now.drop_last() == before.drop_last());
            let head = join(before.drop_last(), c).push(c);
            assert(join(now, c) == head + before.last().push(s.last()));
            assert(head + before.last().push(s.last()) == (head + before.last()).push(s.last()));
        }
        assert(s == s.drop_last().push(s.last()));
    }
}

/// The handshake with the speech server reports that the server is up
/// only where the server said so: when its output has ended, the session
/// goes on without an error exactly where one of the lines held the ready
/// marker, and a server that printed neither marker counts as stopped.
pub proof fn lemma_startup_waits_for_the_marker(lines: Seq<Seq<char>>)
    ensures
        failure(after_end(after_lines(Startup::Waiting, lines))) is None ==> exists|i: int|
            0 <= i < lines.len() && contains(#[trigger] lines[i], ready_marker()),
        (forall|i: int| 0 <= i < lines.len() ==> !contains_marker(#[trigger] lines[i]))
            ==> failure(after_end(after_lines(Startup::Waiting, lines))) == Some(
            Error::ServerStopped,
        ),
    decreases lines.len(),
{
    if lines.len() > 0 {
        let before = lines.drop_last();
        lemma_startup_waits_for_the_marker(before);
        let state = after_lines(Startup::Waiting, before);
        if failure(after_end(after_lines(Startup::Waiting, lines))) is None {
            if state == Startup::Waiting {
                assert(contains(lines[lines.len() - 1], ready_marker()));
            } else {
                assert(failure(after_end(state)) is None);
                let i = choose|i: int|
                    0 <= i < before.len() && contains(#[trigger] before[i], ready_marker());
                assert(contains(lines[i], ready_marker()));
            }
        }
        if forall|i: int| 0 <= i < lines.len() ==> !contains_marker(#[trigger] lines[i]) {
            assert forall|i: int| 0 <= i < before.len() implies !contains_marker(
                #[trigger] before[i],
            ) by {
                assert(before[i] == lines[i]);
            }
            assert(!contains_marker(lines[lines.len() - 1]));
        }
    }
}

/// Four bytes below 128 are UTF-8.
proof fn lemma_tag_is_text(tag: Seq<u8>)
    requires
        tag.len() == 4,
        forall|i: int| 0 <= i < 4 ==> tag[i] < 0x80,
    ensures
        vstd::utf8::valid_utf8(tag),
{
    let chars = Seq::new(4, |i: int| tag[i] as char);
    assert(vstd::utf8::is_ascii_chars(chars));
    vstd::utf8::is_ascii_chars_encode_utf8(chars);
    vstd::utf8::encode_utf8_valid_utf8(chars);
    assert(vstd::utf8::encode_utf8(chars) =~= tag);
}

/// A file in the plainest layout: a form tagged as a wave, then a `fmt `
/// chunk of sixteen bytes, then the `data` chunk, whose contents the file
/// holds in full.
pub open spec fn plain_wave(b: Seq<u8>) -> bool {
    &&& b.len() >= 44
    &&& form_end(b) > 36
    &&& b.subrange(8, 12) == wave_tag()
    &&& b.subrange(12, 16) == fmt_tag()
    &&& le32(b, 16) == 16
    &&& b.subrange(36, 40) == data_tag()
    &&& 44 + le32(b, 40) <= b.len()
}

/// In a plain file the walks arrive: the file is readable, its header
/// stands at position 12 and its data chunk at position 36.
pub proof fn lemma_plain_wave(b: Seq<u8>)
    requires
        plain_wave(b),
    ensures
        readable(b),
        chunk_at(b, fmt_tag()) == Some(12int),
        chunk_at(b, data_tag()) == Some(36int),
{
    reveal_with_fuel(find_chunk, 3);
    lemma_tag_is_text(fmt_tag());
    lemma_tag_is_text(data_tag());
    assert(fmt_tag() != data_tag()) by {
        assert(fmt_tag()[0] != data_tag()[0]);
    }
    assert(le32(b, 16) % 2 == 0);
    assert(find_chunk(b, fmt_tag(), 12, form_end(b)) == Walk::Found(12));
    assert(find_chunk(b, data_tag(), 36, form_end(b)) == Walk::Found(36));
    assert(find_chunk(b, data_tag(), 12, form_end(b)) == Walk::Found(36));
}

/// A plain file of sixteen-bit samples holds a clip: the rate that its
/// header states and half as many samples as its data chunk has bytes. So a
/// file with 8000 bytes of samples at 8000 samples a second gives a clip of
/// 4000 samples, half a second.
pub proof fn lemma_plain_wave_of_sixteen_bits(b: Seq<u8>)
    requires
        plain_wave(b),
        le16(b, 20) == FORMAT_PCM,
        le16(b, 34) == 16,
    ensures
        clip_in(b) == Some((le32(b, 24) as u32, (le32(b, 40) / 2) as usize)),
{
    lemma_plain_wave(b);
}

/// A plain file in a format that is not read holds no clip.
pub proof fn lemma_plain_wave_of_another_format(b: Seq<u8>)
    requires
        plain_wave(b),
        le16(b, 20) != FORMAT_PCM,
        le16(b, 20) != FORMAT_FLOAT,
    ensures
        clip_in(b) is None,
{
    lemma_plain_wave(b);
}

} // verus!
