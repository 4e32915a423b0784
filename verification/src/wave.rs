//! Measuring a clip: the sample rate and the sample count of a waveform
//! held in memory.
//!
//! The waveform is parsed by the `wav` crate. That parser stops the program
//! on some malformed files, so the chunks it will visit are walked first,
//! and the parser is called only on files on which it is known to return.
//! On those files the format says in a few lines what the parser returns,
//! and `wave_in` states it.

use vstd::prelude::*;
use vstd::slice::slice_subrange;
use vstd::utf8::valid_utf8;

verus! {

/// The samples of a waveform: their container and how many it holds.
#[derive(Clone, Copy, Debug, PartialEq, Eq)]
pub enum Samples {
    Eight(usize),
    Sixteen(usize),
    TwentyFour(usize),
    ThirtyTwoFloat(usize),
    Empty,
}

/// What the scheduler reads of a parsed waveform.
#[derive(Clone, Copy, Debug, PartialEq, Eq)]
pub struct Waveform {
    /// The sampling rate that the header states.
    pub rate: u32,
    /// The samples of the data chunk.
    pub samples: Samples,
}

/// The tag of the form that holds a waveform.
pub open spec fn wave_tag() -> Seq<u8> {
    seq![0x57u8, 0x41u8, 0x56u8, 0x45u8]
}

/// The tag of the chunk that holds the header.
pub open spec fn fmt_tag() -> Seq<u8> {
    seq![0x66u8, 0x6Du8, 0x74u8, 0x20u8]
}

/// The tag of the chunk that holds the samples.
pub open spec fn data_tag() -> Seq<u8> {
    seq![0x64u8, 0x61u8, 0x74u8, 0x61u8]
}

/// The little-endian number in the two bytes from `at` on.
pub open spec fn le16(b: Seq<u8>, at: int) -> nat {
    b[at] as nat + 0x100 * (b[at + 1] as nat)
}

/// The little-endian number in the four bytes from `at` on.
pub open spec fn le32(b: Seq<u8>, at: int) -> nat {
    b[at] as nat + 0x100 * (b[at + 1] as nat) + 0x1_0000 * (b[at + 2] as nat) + 0x100_0000 * (b[at
        + 3] as nat)
}

/// Where the chunk after the one at `cur` starts: behind its eight bytes of
/// tag and length and its contents, padded to an even length.
pub open spec fn next_chunk(b: Seq<u8>, cur: int) -> int {
    cur + 8 + le32(b, cur + 4) + le32(b, cur + 4) % 2
}

/// Where the walk over the chunks of the form ends. The form's length is
/// stated in the four bytes from position 4 on.
pub open spec fn form_end(b: Seq<u8>) -> int {
    4 + le32(b, 4) as int
}

/// How a walk over the chunks of a form ends.
pub enum Walk {
    /// The chunk that starts at this position has the tag looked for.
    Found(int),
    /// The walk reached the end of the form.
    Absent,
    /// A chunk before the one looked for is cut short or has a tag that is
    /// not UTF-8.
    Broken,
}

/// The walk that looks for the first chunk with the tag `tag`, from the
/// chunk at `cur` up to the position `end`.
pub open spec fn find_chunk(b: Seq<u8>, tag: Seq<u8>, cur: int, end: int) -> Walk
    decreases
            if cur < end {
                end - cur
            } else {
                0
            },
{
    if cur < 0 || cur >= end {
        Walk::Absent
    } else if cur + 8 > b.len() || !valid_utf8(b.subrange(cur, cur + 4)) {
        Walk::Broken
    } else if b.subrange(cur, cur + 4) == tag {
        Walk::Found(cur)
    } else {
        find_chunk(b, tag, next_chunk(b, cur), end)
    }
}

/// The position of the first chunk with the tag `tag` in the form that `b`
/// opens with, where the walk reaches it and its contents lie within `b`.
pub open spec fn chunk_at(b: Seq<u8>, tag: Seq<u8>) -> Option<int> {
    match find_chunk(b, tag, 12, form_end(b)) {
        Walk::Found(p) => if p + 8 + le32(b, p + 4) <= b.len() {
            Some(p)
        } else {
            None
        },
        _ => None,
    }
}

/// Whether `b` is a wave form whose header and samples can be reached: it
/// is tagged as a wave, and the walks to its `fmt ` chunk and to its `data`
/// chunk both arrive at a chunk that lies within `b`.
pub open spec fn readable(b: Seq<u8>) -> bool {
    &&& b.len() >= 12
    &&& b.subrange(8, 12) == wave_tag()
    &&& chunk_at(b, fmt_tag()) is Some
    &&& chunk_at(b, data_tag()) is Some
}

/// The format word of uncompressed integer samples.
pub const FORMAT_PCM: u16 = 1;

/// The format word of floating-point samples.
pub const FORMAT_FLOAT: u16 = 3;

/// What a readable file holds. Its `fmt ` chunk states the format word in
/// its first two bytes, the sampling rate from its fifth byte on and the
/// bits of a sample value in its last two bytes of sixteen; its `data` chunk
/// holds the sample values, one after the other. Integer samples of 8, 16
/// and 24 bits and floating-point samples of 32 bits are read; a value that
/// the data chunk holds only in part is left out. Any other file holds no
/// waveform.
pub open spec fn wave_in(b: Seq<u8>) -> Option<Waveform> {
    let header = chunk_at(b, fmt_tag())->0 + 8;
    let data = chunk_at(b, data_tag())->0;
    let format = le16(b, header);
    let rate = le32(b, header + 4) as u32;
    let bits = le16(b, header + 14);
    let bytes = le32(b, data + 4);
    if le32(b, header - 4) < 16 {
        None
    } else if format == FORMAT_PCM && bits == 8 {
        Some(Waveform { rate, samples: Samples::Eight(bytes as usize) })
    } else if format == FORMAT_PCM && bits == 16 {
        Some(Waveform { rate, samples: Samples::Sixteen((bytes / 2) as usize) })
    } else if format == FORMAT_PCM && bits == 24 {
        Some(Waveform { rate, samples: Samples::TwentyFour((bytes / 3) as usize) })
    } else if format == FORMAT_FLOAT && bits == 32 {
        Some(Waveform { rate, samples: Samples::ThirtyTwoFloat((bytes / 4) as usize) })
    } else {
        None
    }
}

/// The sample rate and the sample count of a parsed waveform: the rate of
/// its header and the number of its sample values, so that the count
/// divided by the rate is the duration in seconds. A waveform without
/// samples has none.
pub open spec fn clip_of(w: Waveform) -> Option<(u32, usize)> {
    match w.samples {
        Samples::Eight(n) | Samples::Sixteen(n) | Samples::TwentyFour(n) | Samples::ThirtyTwoFloat(
            n,
        ) => Some((w.rate, n)),
        Samples::Empty => None,
    }
}

/// What a file with the bytes `b` gives as a clip: nothing where it is not
/// readable or holds no waveform that is read, else the rate and the count
/// of its waveform.
pub open spec fn clip_in(b: Seq<u8>) -> Option<(u32, usize)> {
    if readable(b) {
        match wave_in(b) {
            Some(w) => clip_of(w),
            None => None,
        }
    } else {
        None
    }
}

/// Calls `std::str::from_utf8`, which accepts a byte string exactly where
/// it is valid UTF-8.
#[verifier::external_body]
fn is_utf8(bytes: &[u8]) -> (ok: bool)
    ensures
        ok == valid_utf8(bytes@),
{
    match std::str::from_utf8(bytes) {
        Ok(_) => true,
        Err(_) => false,
    }
}

/// Calls `wav::read` on a reader over `bytes` and keeps, of what it
/// returns, the sampling rate of the header and the length of the sample
/// vector; an error becomes `None`.
///
/// The contract claims two things of the parser. On a readable file it
/// returns what `wave_in` states: it takes the header from the first
/// sixteen bytes of the first `fmt ` chunk, refuses a shorter chunk and
/// every format but the four that `wave_in` lists, and cuts the contents of
/// the first `data` chunk into values of one, two, three or four bytes. And
/// it returns on every readable file: it stops the program only where it
/// unwraps a chunk header that is cut short, or a tag that is not UTF-8, on
/// its way to the `fmt ` or the `data` chunk, and it allocates only for the
/// contents of those two chunks, which in a readable file lie within the
/// bytes.
#[verifier::external_body]
#[allow(deprecated)]
fn read_wave(bytes: &[u8]) -> (r: Option<Waveform>)
    requires
        readable(bytes@),
    ensures
        r == wave_in(bytes@),
{
    match wav::read(&mut std::io::Cursor::new(bytes)) {
        Ok((header, data)) => {
            let samples = match data {
                wav::BitDepth::Eight(v) => Samples::Eight(v.len()),
                wav::BitDepth::Sixteen(v) => Samples::Sixteen(v.len()),
                wav::BitDepth::TwentyFour(v) => Samples::TwentyFour(v.len()),
                wav::BitDepth::ThirtyTwoFloat(v) => Samples::ThirtyTwoFloat(v.len()),
                wav::BitDepth::Empty => Samples::Empty,
            };
            Some(Waveform { rate: header.sampling_rate, samples })
        },
        Err(_) => None,
    }
}

/// The little-endian number in the four bytes from `at` on.
fn read_le32(bytes: &[u8], at: usize) -> (n: u32)
    requires
        at + 4 <= bytes.len(),
    ensures
        n == le32(bytes@, at as int),
{
    let b0 = bytes[at] as u32;
    let b1 = bytes[at + 1] as u32;
    let b2 = bytes[at + 2] as u32;
    let b3 = bytes[at + 3] as u32;
    b0 + 0x100 * b1 + 0x1_0000 * b2 + 0x100_0000 * b3
}

/// Whether the four bytes from `at` on are `t0`, `t1`, `t2`, `t3`.
fn has_tag(bytes: &[u8], at: usize, t0: u8, t1: u8, t2: u8, t3: u8) -> (same: bool)
    requires
        at + 4 <= bytes.len(),
    ensures
        same == (bytes@.subrange(at as int, at + 4) == seq![t0, t1, t2, t3]),
{
    let same = bytes[at] == t0 && bytes[at + 1] == t1 && bytes[at + 2] == t2 && bytes[at + 3]
        == t3;
    proof {
        let s = bytes@.subrange(at as int, at + 4);
        let t = seq![t0, t1, t2, t3];
        if same {
            assert(s =~= t);
        } else {
            assert(s[0] == bytes@[at as int]);
            assert(s[1] == bytes@[at + 1]);
            assert(s[2] == bytes@[at + 2]);
            assert(s[3] == bytes@[at + 3]);
        }
    }
    same
}

/// Walks the chunks of the form for the first one tagged `t0 t1 t2 t3`.
fn locate(bytes: &[u8], t0: u8, t1: u8, t2: u8, t3: u8) -> (r: Option<usize>)
    requires
        bytes.len() >= 12,
    ensures
        match r {
            Some(p) => chunk_at(bytes@, seq![t0, t1, t2, t3]) == Some(p as int),
            None => chunk_at(bytes@, seq![t0, t1, t2, t3]) is None,
        },
{
    let ghost b = bytes@;
    let ghost tag = seq![t0, t1, t2, t3];
    let n: u64 = bytes.len() as u64;
    let end: u64 = 4 + read_le32(bytes, 4) as u64;
    let mut cur: u64 = 12;
    while cur < end
        invariant
            b == bytes@,
            tag == seq![t0, t1, t2, t3],
            n == bytes.len(),
            12 <= cur,
            end <= 4 + u32::MAX,
            find_chunk(b, tag, cur as int, end as int) == find_chunk(b, tag, 12, form_end(b)),
        decreases
                if cur < end {
                    end - cur
                } else {
                    0
                },
    {
        if cur + 8 > n {
            return None;
        }
        let at: usize = cur as usize;
        if !is_utf8(slice_subrange(bytes, at, at + 4)) {
            return None;
        }
        let len: u64 = read_le32(bytes, at + 4) as u64;
        if has_tag(bytes, at, t0, t1, t2, t3) {
            if cur + 8 + len <= n {
                return Some(at);
            } else {
                return None;
            }
        }
        cur = cur + 8 + len + len % 2;
    }
    None
}

/// The sample rate and the sample count of a parsed waveform; see
/// `clip_of`.
pub fn sample_info(wave: &Waveform) -> (r: Option<(u32, usize)>)
    ensures
        r == clip_of(*wave),
{
    match wave.samples {
        Samples::Eight(n) => Some((wave.rate, n)),
        Samples::Sixteen(n) => Some((wave.rate, n)),
        Samples::TwentyFour(n) => Some((wave.rate, n)),
        Samples::ThirtyTwoFloat(n) => Some((wave.rate, n)),
        Samples::Empty => None,
    }
}

/// Whether the parser can be run on `bytes`.
pub fn is_readable(bytes: &[u8]) -> (ok: bool)
    ensures
        ok == readable(bytes@),
{
    if bytes.len() < 12 {
        return false;
    }
    if !has_tag(bytes, 8, 0x57, 0x41, 0x56, 0x45) {
        return false;
    }
    if locate(bytes, 0x66, 0x6D, 0x74, 0x20).is_none() {
        return false;
    }
    locate(bytes, 0x64, 0x61, 0x74, 0x61).is_some()
}

/// The sample rate and the sample count of the clip in a waveform file
/// with the given bytes, or `None` where the file holds no usable clip.
/// It returns on every input.
pub fn wav_info(bytes: &[u8]) -> (r: Option<(u32, usize)>)
    ensures
        r == clip_in(bytes@),
{
    if !is_readable(bytes) {
        return None;
    }
    match read_wave(bytes) {
        Some(wave) => sample_info(&wave),
        None => None,
    }
}

} // verus!
