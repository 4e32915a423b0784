//! The speech backends and the voices they offer.
//!
//! Each backend lists its voices in a format of its own. The functions here
//! take the text that a backend printed and return the voice identifiers in
//! it.

use crate::text::{
    find, find_from, from_chars, lemma_find_from, lemma_split_nonempty, split, split_chars,
    string_texts, texts, to_chars, Separator,
};
use vstd::prelude::*;

verus! {

/// A speech backend.
#[derive(Clone, Copy, Debug, PartialEq, Eq, Structural)]
pub enum TTS {
    Espeak,
    Festival,
    RHVoice,
    Flite,
    Mimic,
}

/// A voice as contracts see it: its backend and the characters of its
/// identifier.
pub type VoiceView = (TTS, Seq<char>);

/// The views of a sequence of voices.
pub open spec fn voice_views(voices: Seq<(TTS, String)>) -> Seq<VoiceView> {
    Seq::new(voices.len(), |i: int| (voices[i].0, voices[i].1@))
}

/// The given identifiers as voices of one backend.
pub open spec fn tagged(backend: TTS, names: Seq<Seq<char>>) -> Seq<VoiceView> {
    Seq::new(names.len(), |i: int| (backend, names[i]))
}

/// The pieces that hold a character, in their order.
pub open spec fn nonempty(pieces: Seq<Seq<char>>) -> Seq<Seq<char>>
    decreases pieces.len(),
{
    if pieces.len() == 0 {
        pieces
    } else {
        let before = nonempty(pieces.drop_last());
        if pieces.last().len() > 0 {
            before.push(pieces.last())
        } else {
            before
        }
    }
}

/// The fields of a line: its pieces between spaces, without the empty ones
/// that runs of spaces leave.
pub open spec fn fields(line: Seq<char>) -> Seq<Seq<char>> {
    nonempty(split(line, Separator::Char(' ')))
}

/// The non-empty pieces among the first `m` open the list of those among
/// the first `n`.
proof fn lemma_nonempty_prefix(pieces: Seq<Seq<char>>, m: int, n: int)
    requires
        0 <= m <= n <= pieces.len(),
    ensures
        nonempty(pieces.take(m)).len() <= nonempty(pieces.take(n)).len(),
        nonempty(pieces.take(n)).take(nonempty(pieces.take(m)).len() as int) == nonempty(
            pieces.take(m),
        ),
    decreases n - m,
{
    if m < n {
        lemma_nonempty_prefix(pieces, m, n - 1);
        assert(pieces.take(n).drop_last() == pieces.take(n - 1));
        let a = nonempty(pieces.take(m));
        let b = nonempty(pieces.take(n - 1));
        let c = nonempty(pieces.take(n));
        assert(c.take(a.len() as int) == b.take(a.len() as int));
    } else {
        let c = nonempty(pieces.take(n));
        assert(c.take(c.len() as int) == c);
    }
}

/// The fields of `line` as strings.
fn line_fields(line: &[char]) -> (out: Vec<String>)
    ensures
        string_texts(out@) == fields(line@),
{
    let pieces = split_chars(line, Separator::Char(' '));
    let ghost all = texts(pieces@);
    let mut out: Vec<String> = Vec::new();
    let mut i: usize = 0;
    while i < pieces.len()
        invariant
            i <= pieces.len(),
            all == texts(pieces@),
            string_texts(out@) == nonempty(all.take(i as int)),
        decreases pieces.len() - i,
    {
        proof {
            assert(all.take(i + 1).drop_last() == all.take(i as int));
        }
        if pieces[i].len() > 0 {
            let ghost before = string_texts(out@);
            out.push(from_chars(pieces[i].as_slice()));
            assert(string_texts(out@) == before.push(all[i as int]));
        }
        i += 1;
    }
    assert(all.take(pieces.len() as int) == all);
    out
}

/// The field of `line` at place `n`, counted from 0, where it has that
/// many.
fn nth_field(line: &[char], n: usize) -> (r: Option<String>)
    ensures
        match r {
            Some(field) => n < fields(line@).len() && field@ == fields(line@)[n as int],
            None => fields(line@).len() <= n,
        },
{
    let pieces = split_chars(line, Separator::Char(' '));
    let ghost all = texts(pieces@);
    let mut seen: usize = 0;
    let mut i: usize = 0;
    while i < pieces.len()
        invariant
            i <= pieces.len(),
            all == texts(pieces@),
            all == split(line@, Separator::Char(' ')),
            seen == nonempty(all.take(i as int)).len(),
            seen <= n,
            seen <= i,
        decreases pieces.len() - i,
    {
        proof {
            assert(all.take(i + 1).drop_last() == all.take(i as int));
        }
        if pieces[i].len() > 0 {
            if seen == n {
                proof {
                    lemma_nonempty_prefix(all, i + 1, all.len() as int);
                    assert(all.take(all.len() as int) == all);
                    let here = nonempty(all.take(i + 1));
                    let full = nonempty(all);
                    assert(all.take(i + 1).last() == all[i as int]);
                    assert(here == nonempty(all.take(i as int)).push(all[i as int]));
                    assert(full.take(here.len() as int) == here);
                    assert(full[n as int] == full.take(here.len() as int)[n as int]);
                    assert(all[i as int] == pieces[i as int]@);
                }
                return Some(from_chars(pieces[i].as_slice()));
            }
            seen += 1;
        }
        i += 1;
    }
    assert(all.take(pieces.len() as int) == all);
    None
}

/// The voices that RHVoice offers for English.
pub open spec fn rhvoice_voices() -> Seq<Seq<char>> {
    seq!["alan"@, "bdl"@, "clb"@, "evgeniy-eng"@, "lyubov"@, "slt"@]
}

/// The voices of RHVoice. It has no call that lists them, so they are
/// listed here.
pub fn get_rhvoice_voices() -> (voices: Vec<String>)
    ensures
        string_texts(voices@) == rhvoice_voices(),
{
    let mut voices: Vec<String> = Vec::new();
    voices.push(String::from_str("alan"));
    voices.push(String::from_str("bdl"));
    voices.push(String::from_str("clb"));
    voices.push(String::from_str("evgeniy-eng"));
    voices.push(String::from_str("lyubov"));
    voices.push(String::from_str("slt"));
    assert(string_texts(voices@) == rhvoice_voices());
    voices
}

/// What separates the heading of mimic's listing from its voices.
pub open spec fn mimic_heading() -> Seq<char> {
    seq![':', ' ']
}

/// The second of the segments that `s` falls into when it is cut at every
/// `pattern`; `None` where `pattern` does not stand in `s`.
pub open spec fn second_segment(s: Seq<char>, pattern: Seq<char>) -> Option<Seq<char>> {
    let first = find_from(s, pattern, 0);
    if first < 0 {
        None
    } else {
        let start = first + pattern.len();
        let next = find_from(s, pattern, start);
        if next < 0 {
            Some(s.subrange(start, s.len() as int))
        } else {
            Some(s.subrange(start, next))
        }
    }
}

/// The voices in what `mimic -lv` printed: the fields of the text that
/// follows the first `": "`, up to the next one. `None` where the heading
/// is missing.
pub open spec fn mimic_voices(listing: Seq<char>) -> Option<Seq<Seq<char>>> {
    match second_segment(listing, mimic_heading()) {
        Some(segment) => Some(fields(segment)),
        None => None,
    }
}

/// The voices of mimic, from the text that `mimic -lv` printed.
pub fn get_mimic_voices(listing: &str) -> (r: Option<Vec<String>>)
    ensures
        match r {
            Some(voices) => mimic_voices(listing@) == Some(string_texts(voices@)),
            None => mimic_voices(listing@) is None,
        },
{
    let chars = to_chars(listing);
    let s = chars.as_slice();
    let mut heading: Vec<char> = Vec::new();
    heading.push(':');
    heading.push(' ');
    assert(heading@ == mimic_heading());
    proof {
        lemma_find_from(s@, heading@, 0);
    }
    let first = match find(s, heading.as_slice(), 0) {
        Some(first) => first,
        None => { return None; },
    };
    let n = s.len();
    assert(first + heading@.len() <= n);
    let start = first + 2;
    let end = match find(s, heading.as_slice(), start) {
        Some(next) => next,
        None => n,
    };
    proof {
        lemma_find_from(s@, heading@, start as int);
    }
    Some(line_fields(vstd::slice::slice_subrange(s, start, end)))
}

/// The fifth fields of the lines from the second to the one before `n`,
/// leaving out the lines that have fewer fields.
pub open spec fn fifth_fields(lines: Seq<Seq<char>>, n: int) -> Seq<Seq<char>>
    decreases n,
{
    if n <= 1 {
        Seq::empty()
    } else {
        let before = fifth_fields(lines, n - 1);
        if fields(lines[n - 1]).len() > 4 {
            before.push(fields(lines[n - 1])[4])
        } else {
            before
        }
    }
}

/// The voices in what `espeak-ng --voices=en` printed: a table with one
/// line of headings, whose fifth column holds the identifiers.
pub open spec fn espeak_voices(listing: Seq<char>) -> Seq<Seq<char>> {
    let lines = split(listing, Separator::Char('\n'));
    fifth_fields(lines, lines.len() as int)
}

/// The voices of espeak, from the text that `espeak-ng --voices=en`
/// printed.
pub fn get_espeak_voices(listing: &str) -> (voices: Vec<String>)
    ensures
        string_texts(voices@) == espeak_voices(listing@),
{
    let chars = to_chars(listing);
    let lines = split_chars(chars.as_slice(), Separator::Char('\n'));
    let ghost all = texts(lines@);
    proof {
        lemma_split_nonempty(listing@, Separator::Char('\n'));
    }
    let mut voices: Vec<String> = Vec::new();
    let mut i: usize = 1;
    while i < lines.len()
        invariant
            1 <= i <= lines.len(),
            all == texts(lines@),
            string_texts(voices@) == fifth_fields(all, i as int),
        decreases lines.len() - i,
    {
        match nth_field(lines[i].as_slice(), 4) {
            Some(voice) => {
                let ghost before = string_texts(voices@);
                voices.push(voice);
                assert(string_texts(voices@) == before.push(fields(all[i as int])[4]));
            },
            None => {},
        }
        i += 1;
    }
    voices
}

/// Whether `c` takes one byte in UTF-8.
pub open spec fn one_byte(c: char) -> bool {
    (c as u32) < 0x80
}

/// Whether `c` takes two bytes in UTF-8.
pub open spec fn two_bytes(c: char) -> bool {
    0x80 <= (c as u32) < 0x800
}

/// The list inside what festival printed: the text without its first byte
/// and its last two bytes, which for `(a b)` and a line end are the
/// brackets. `None` where the text is shorter than that, or where the cut
/// would fall inside a character.
pub open spec fn festival_list(listing: Seq<char>) -> Option<Seq<char>> {
    let n = listing.len() as int;
    if n >= 3 && one_byte(listing[0]) && one_byte(listing[n - 2]) && one_byte(listing[n - 1]) {
        Some(listing.subrange(1, n - 2))
    } else if n >= 2 && one_byte(listing[0]) && two_bytes(listing[n - 1]) {
        Some(listing.subrange(1, n - 1))
    } else {
        None
    }
}

/// The voices in what festival answered to `(voice.list)`: the pieces
/// between the spaces of the list.
pub open spec fn festival_voices(listing: Seq<char>) -> Option<Seq<Seq<char>>> {
    match festival_list(listing) {
        Some(list) => Some(split(list, Separator::Char(' '))),
        None => None,
    }
}

/// The voices of festival, from the text that it answered to
/// `(voice.list)`.
pub fn get_festival_voices(listing: &str) -> (r: Option<Vec<String>>)
    ensures
        match r {
            Some(voices) => festival_voices(listing@) == Some(string_texts(voices@)),
            None => festival_voices(listing@) is None,
        },
{
    let chars = to_chars(listing);
    let s = chars.as_slice();
    let n = s.len();
    let end = if n >= 3 && (s[0] as u32) < 0x80 && (s[n - 2] as u32) < 0x80 && (s[n - 1] as u32)
        < 0x80 {
        n - 2
    } else if n >= 2 && (s[0] as u32) < 0x80 && 0x80 <= (s[n - 1] as u32) && (s[n - 1] as u32)
        < 0x800 {
        n - 1
    } else {
        return None;
    };
    let pieces = split_chars(vstd::slice::slice_subrange(s, 1, end), Separator::Char(' '));
    let ghost all = texts(pieces@);
    let mut voices: Vec<String> = Vec::new();
    let mut i: usize = 0;
    while i < pieces.len()
        invariant
            i <= pieces.len(),
            all == texts(pieces@),
            string_texts(voices@) == all.take(i as int),
        decreases pieces.len() - i,
    {
        let ghost before = string_texts(voices@);
        voices.push(from_chars(pieces[i].as_slice()));
        assert(string_texts(voices@) == before.push(all[i as int]));
        i += 1;
    }
    assert(all.take(pieces.len() as int) == all);
    Some(voices)
}

/// The position of the last `.` in `name`, or -1 where it has none.
pub open spec fn last_dot(name: Seq<char>) -> int
    decreases name.len(),
{
    if name.len() == 0 {
        -1
    } else if name.last() == '.' {
        name.len() - 1
    } else {
        last_dot(name.drop_last())
    }
}

/// Whether `name` names a file in a directory: it is not empty, has no
/// `/`, and is neither `.` nor `..`.
pub open spec fn is_file_name(name: Seq<char>) -> bool {
    &&& name.len() > 0
    &&& forall|i: int| 0 <= i < name.len() ==> name[i] != '/'
    &&& name != seq!['.']
    &&& name != seq!['.', '.']
}

/// The stem of a file name: what stands before its last `.`, or the whole
/// name where it has no `.` or only one at its start.
pub open spec fn file_stem(name: Seq<char>) -> Seq<char> {
    if last_dot(name) <= 0 {
        name
    } else {
        name.take(last_dot(name))
    }
}

/// The stems of the given file names.
pub open spec fn file_stems(names: Seq<Seq<char>>) -> Seq<Seq<char>> {
    Seq::new(names.len(), |i: int| file_stem(names[i]))
}

/// The voice that flite keeps in the file `name`, or `None` where `name`
/// is no file name.
fn flite_voice(name: &[char]) -> (r: Option<String>)
    ensures
        match r {
            Some(voice) => is_file_name(name@) && voice@ == file_stem(name@),
            None => !is_file_name(name@),
        },
{
    let n = name.len();
    if n == 0 || (n == 1 && name[0] == '.') || (n == 2 && name[0] == '.' && name[1] == '.') {
        proof {
            if n == 1 {
                assert(name@ == seq!['.']);
            }
            if n == 2 {
                assert(name@ == seq!['.', '.']);
            }
        }
        return None;
    }
    assert(name@ != seq!['.']) by {
        if n == 1 {
            assert(seq!['.'][0] == '.');
        }
    }
    assert(name@ != seq!['.', '.']) by {
        if n == 2 {
            assert(seq!['.', '.'][0] == '.');
            assert(seq!['.', '.'][1] == '.');
        }
    }
    let mut dot: usize = 0;
    let mut found = false;
    let mut i: usize = 0;
    while i < n
        invariant
            i <= n,
            n == name.len(),
            forall|k: int| 0 <= k < i ==> name@[k] != '/',
            found ==> dot < i && last_dot(name@.take(i as int)) == dot,
            !found ==> last_dot(name@.take(i as int)) == -1,
        decreases n - i,
    {
        proof {
            assert(name@.take(i + 1).drop_last() == name@.take(i as int));
        }
        if name[i] == '/' {
            return None;
        }
        if name[i] == '.' {
            dot = i;
            found = true;
        }
        i += 1;
    }
    assert(name@.take(n as int) == name@);
    if found && dot > 0 {
        Some(from_chars(vstd::slice::slice_subrange(name, 0, dot)))
    } else {
        Some(from_chars(name))
    }
}

/// The voices of flite, from the names of the files in its voice
/// directory: the stem of each. `None` where one of them is no file name.
pub fn get_flite_voices(file_names: &Vec<String>) -> (r: Option<Vec<String>>)
    ensures
        match r {
            Some(voices) => {
                &&& forall|i: int|
                    0 <= i < file_names.len() ==> is_file_name(#[trigger] file_names[i]@)
                &&& string_texts(voices@) == file_stems(string_texts(file_names@))
            },
            None => exists|i: int|
                0 <= i < file_names.len() && !is_file_name(#[trigger] file_names[i]@),
        },
{
    let mut voices: Vec<String> = Vec::new();
    let mut i: usize = 0;
    while i < file_names.len()
        invariant
            i <= file_names.len(),
            forall|k: int| 0 <= k < i ==> is_file_name(#[trigger] file_names[k]@),
            string_texts(voices@) == file_stems(string_texts(file_names@)).take(i as int),
        decreases file_names.len() - i,
    {
        let name = to_chars(file_names[i].as_str());
        match flite_voice(name.as_slice()) {
            Some(voice) => {
                let ghost before = string_texts(voices@);
                voices.push(voice);
                assert(string_texts(voices@) == before.push(file_stem(file_names[i as int]@)));
            },
            None => {
                return None;
            },
        }
        i += 1;
    }
    assert(file_stems(string_texts(file_names@)).take(file_names.len() as int) == file_stems(
        string_texts(file_names@),
    ));
    Some(voices)
}

/// The voices of a session: those of festival, then those of espeak, then
/// those of RHVoice, each list in its own order.
pub open spec fn all_voices(
    festival: Seq<Seq<char>>,
    espeak: Seq<Seq<char>>,
    rhvoice: Seq<Seq<char>>,
) -> Seq<VoiceView> {
    tagged(TTS::Festival, festival) + tagged(TTS::Espeak, espeak) + tagged(TTS::RHVoice, rhvoice)
}

/// Appends the identifiers `names` to `voices` as voices of `backend`.
fn add_voices(voices: &mut Vec<(TTS, String)>, backend: TTS, names: &Vec<String>)
    ensures
        voice_views(final(voices)@) == voice_views(old(voices)@) + tagged(
            backend,
            string_texts(names@),
        ),
{
    let ghost start = voice_views(voices@);
    let ghost added = tagged(backend, string_texts(names@));
    let mut i: usize = 0;
    while i < names.len()
        invariant
            i <= names.len(),
            added == tagged(backend, string_texts(names@)),
            voice_views(voices@) == start + added.take(i as int),
        decreases names.len() - i,
    {
        let ghost before = voice_views(voices@);
        voices.push((backend, names[i].clone()));
        assert(voice_views(voices@) == before.push(added[i as int]));
        i += 1;
    }
    assert(added.take(names.len() as int) == added);
}

/// Collects the voices of a session from what the backends listed.
pub fn get_all_voices(
    festival: &Vec<String>,
    espeak: &Vec<String>,
    rhvoice: &Vec<String>,
) -> (voices: Vec<(TTS, String)>)
    ensures
        voice_views(voices@) == all_voices(
            string_texts(festival@),
            string_texts(espeak@),
            string_texts(rhvoice@),
        ),
{
    let mut voices: Vec<(TTS, String)> = Vec::new();
    assert(voice_views(voices@) == Seq::<VoiceView>::empty());
    add_voices(&mut voices, TTS::Festival, festival);
    add_voices(&mut voices, TTS::Espeak, espeak);
    add_voices(&mut voices, TTS::RHVoice, rhvoice);
    voices
}

} // verus!
