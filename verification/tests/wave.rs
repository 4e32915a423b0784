use ransom_tts::wave::{is_readable, sample_info, Samples, Waveform};
use ransom_tts::wav_info;
use std::io::Cursor;

fn chunk(tag: &[u8; 4], body: &[u8]) -> Vec<u8> {
    let mut out = tag.to_vec();
    out.extend_from_slice(&(body.len() as u32).to_le_bytes());
    out.extend_from_slice(body);
    if body.len() % 2 == 1 {
        out.push(0);
    }
    out
}

fn form(kind: &[u8; 4], chunks: &[Vec<u8>]) -> Vec<u8> {
    let body: Vec<u8> = chunks.concat();
    let mut out = b"RIFF".to_vec();
    out.extend_from_slice(&(4 + body.len() as u32).to_le_bytes());
    out.extend_from_slice(kind);
    out.extend_from_slice(&body);
    out
}

fn fmt(format: u16, channels: u16, rate: u32, bits: u16) -> Vec<u8> {
    let block = channels * (bits / 8);
    let mut body = Vec::new();
    body.extend_from_slice(&format.to_le_bytes());
    body.extend_from_slice(&channels.to_le_bytes());
    body.extend_from_slice(&rate.to_le_bytes());
    body.extend_from_slice(&(rate * block as u32).to_le_bytes());
    body.extend_from_slice(&block.to_le_bytes());
    body.extend_from_slice(&bits.to_le_bytes());
    chunk(b"fmt ", &body)
}

fn written(header: wav::Header, data: wav::BitDepth) -> Vec<u8> {
    let mut cursor = Cursor::new(Vec::new());
    wav::write(header, &data, &mut cursor).unwrap();
    cursor.into_inner()
}

#[test]
fn sixteen_bit_clip_counts_its_samples() {
    let bytes = written(wav::Header::new(1, 1, 16000, 16), wav::BitDepth::Sixteen(vec![0i16; 100]));
    assert_eq!(wav_info(&bytes), Some((16000, 100)));
}

#[test]
fn eight_bit_clip_counts_its_samples() {
    let bytes = written(wav::Header::new(1, 1, 8000, 8), wav::BitDepth::Eight(vec![128u8; 50]));
    assert_eq!(wav_info(&bytes), Some((8000, 50)));
}

#[test]
fn twenty_four_bit_clip_counts_its_samples() {
    let bytes =
        written(wav::Header::new(1, 2, 44100, 24), wav::BitDepth::TwentyFour(vec![256i32; 10]));
    assert_eq!(wav_info(&bytes), Some((44100, 10)));
}

#[test]
fn float_clip_counts_its_samples() {
    let bytes = written(
        wav::Header::new(3, 1, 22050, 32),
        wav::BitDepth::ThirtyTwoFloat(vec![0.5f32; 7]),
    );
    assert_eq!(wav_info(&bytes), Some((22050, 7)));
}

#[test]
fn clip_without_samples_has_count_zero() {
    let bytes = form(b"WAVE", &[fmt(1, 1, 16000, 16), chunk(b"data", &[])]);
    assert_eq!(wav_info(&bytes), Some((16000, 0)));
}

#[test]
fn result_is_what_the_parser_reads() {
    let bytes = form(b"WAVE", &[fmt(1, 1, 11025, 16), chunk(b"data", &[1, 2, 3, 4, 5, 6, 7])]);
    let (header, data) = wav::read(&mut Cursor::new(&bytes)).unwrap();
    let samples = data.try_into_sixteen().unwrap();
    assert_eq!(samples.len(), 3);
    assert_eq!(wav_info(&bytes), Some((header.sampling_rate, samples.len())));
    assert_eq!(wav_info(&bytes), Some((11025, 3)));
}

#[test]
fn short_files_hold_no_clip() {
    assert_eq!(wav_info(&[]), None);
    assert_eq!(wav_info(b"RIFF"), None);
    assert_eq!(wav_info(b"RIFF\x04\0\0\0WAV"), None);
    assert_eq!(wav_info(b"RIFF\x04\0\0\0WAVE"), None);
}

#[test]
fn other_forms_hold_no_clip() {
    let bytes = form(b"AVI ", &[fmt(1, 1, 16000, 16), chunk(b"data", &[0; 8])]);
    assert_eq!(wav_info(&bytes), None);
    let bytes = form(&[0xFF, 0xFE, 0xFD, 0xFC], &[fmt(1, 1, 16000, 16), chunk(b"data", &[0; 8])]);
    assert_eq!(wav_info(&bytes), None);
}

#[test]
fn unsupported_formats_hold_no_clip() {
    let bytes = form(b"WAVE", &[fmt(1, 1, 16000, 32), chunk(b"data", &[0; 8])]);
    assert_eq!(wav_info(&bytes), None);
    let bytes = form(b"WAVE", &[fmt(2, 1, 16000, 16), chunk(b"data", &[0; 8])]);
    assert_eq!(wav_info(&bytes), None);
    let bytes = form(b"WAVE", &[fmt(3, 1, 16000, 16), chunk(b"data", &[0; 8])]);
    assert_eq!(wav_info(&bytes), None);
    let bytes = form(b"WAVE", &[chunk(b"fmt ", &[1, 0, 1, 0]), chunk(b"data", &[0; 8])]);
    assert_eq!(wav_info(&bytes), None);
}

#[test]
fn missing_chunks_hold_no_clip() {
    assert_eq!(wav_info(&form(b"WAVE", &[fmt(1, 1, 16000, 16)])), None);
    assert_eq!(wav_info(&form(b"WAVE", &[chunk(b"data", &[0; 8])])), None);
    assert_eq!(wav_info(&form(b"WAVE", &[])), None);
}

#[test]
fn other_chunks_are_passed_over() {
    let bytes = form(
        b"WAVE",
        &[chunk(b"LIST", b"odd"), fmt(1, 1, 16000, 16), chunk(b"cue ", &[9; 5]), chunk(b"data", &[0; 8])],
    );
    assert_eq!(wav_info(&bytes), Some((16000, 4)));
    let bytes = form(b"WAVE", &[chunk(b"data", &[0; 6]), fmt(1, 1, 16000, 16)]);
    assert_eq!(wav_info(&bytes), Some((16000, 3)));
    let bytes = form(
        b"WAVE",
        &[chunk(&[0xC3, 0xA9, b'a', b'b'], &[1, 2]), fmt(1, 1, 16000, 8), chunk(b"data", &[0; 3])],
    );
    assert_eq!(wav_info(&bytes), Some((16000, 3)));
}

#[test]
fn a_tag_that_is_not_text_before_the_clip_spoils_the_file() {
    let good = form(
        b"WAVE",
        &[chunk(b"junk", &[1, 2]), fmt(1, 1, 16000, 16), chunk(b"data", &[0; 8])],
    );
    assert_eq!(wav_info(&good), Some((16000, 4)));
    let bad = form(
        b"WAVE",
        &[chunk(&[0xFF, 0xFE, 0, 0], &[1, 2]), fmt(1, 1, 16000, 16), chunk(b"data", &[0; 8])],
    );
    assert_eq!(wav_info(&bad), None);
    assert!(!is_readable(&bad));
    let between = form(
        b"WAVE",
        &[fmt(1, 1, 16000, 16), chunk(&[0x80, b'a', b'b', b'c'], &[]), chunk(b"data", &[0; 8])],
    );
    assert_eq!(wav_info(&between), None);
}

#[test]
fn a_tag_that_is_not_text_behind_the_clip_is_never_read() {
    let bytes = form(
        b"WAVE",
        &[fmt(1, 1, 16000, 16), chunk(b"data", &[0; 8]), chunk(&[0xFF, 0xFE, 0, 0], &[1, 2])],
    );
    assert_eq!(wav_info(&bytes), Some((16000, 4)));
}

#[test]
fn files_cut_short_hold_no_clip() {
    let whole = form(b"WAVE", &[fmt(1, 1, 16000, 16), chunk(b"data", &[0; 8])]);
    assert_eq!(wav_info(&whole), Some((16000, 4)));
    for cut in 0..whole.len() {
        assert_eq!(wav_info(&whole[..cut]), None);
        assert!(!is_readable(&whole[..cut]));
    }
}

#[test]
fn a_form_that_ends_before_its_data_holds_no_clip() {
    let mut bytes = form(b"WAVE", &[fmt(1, 1, 16000, 16), chunk(b"data", &[0; 8])]);
    // the form claims to end right behind the header chunk
    bytes[4..8].copy_from_slice(&(4u32 + 24).to_le_bytes());
    assert_eq!(wav_info(&bytes), None);
}

#[test]
fn a_chunk_that_claims_more_than_the_file_holds_no_clip() {
    let mut bytes = form(b"WAVE", &[fmt(1, 1, 16000, 16), chunk(b"data", &[0; 8])]);
    let at = bytes.len() - 12;
    bytes[at..at + 4].copy_from_slice(&u32::MAX.to_le_bytes());
    assert_eq!(wav_info(&bytes), None);
    let mut bytes = form(b"WAVE", &[fmt(1, 1, 16000, 16), chunk(b"data", &[0; 8])]);
    bytes[16..20].copy_from_slice(&u32::MAX.to_le_bytes());
    assert_eq!(wav_info(&bytes), None);
}

#[test]
fn readable_files_are_those_whose_chunks_can_be_reached() {
    assert!(is_readable(&form(b"WAVE", &[fmt(1, 1, 16000, 16), chunk(b"data", &[0; 8])])));
    assert!(is_readable(&form(b"WAVE", &[fmt(7, 1, 16000, 5), chunk(b"data", &[0; 8])])));
    assert!(!is_readable(&form(b"WAVE", &[fmt(1, 1, 16000, 16)])));
    assert!(!is_readable(&form(b"wave", &[fmt(1, 1, 16000, 16), chunk(b"data", &[0; 8])])));
}

#[test]
fn a_clip_of_half_a_second() {
    let bytes = form(b"WAVE", &[fmt(1, 1, 8000, 16), chunk(b"data", &vec![0u8; 8000])]);
    assert_eq!(wav_info(&bytes), Some((8000, 4000)));
    let wave = Waveform { rate: 8000, samples: Samples::Sixteen(4000) };
    assert_eq!(sample_info(&wave), Some((8000, 4000)));
}

#[test]
fn a_sample_cut_short_is_not_counted() {
    let bytes = form(b"WAVE", &[fmt(1, 1, 8000, 16), chunk(b"data", &[0; 7])]);
    assert_eq!(wav_info(&bytes), Some((8000, 3)));
    let bytes = form(b"WAVE", &[fmt(1, 1, 8000, 24), chunk(b"data", &[0; 8])]);
    assert_eq!(wav_info(&bytes), Some((8000, 2)));
    let bytes = form(b"WAVE", &[fmt(3, 1, 8000, 32), chunk(b"data", &[0; 11])]);
    assert_eq!(wav_info(&bytes), Some((8000, 2)));
}

#[test]
fn the_first_header_and_the_first_data_chunk_count() {
    let bytes = form(
        b"WAVE",
        &[
            fmt(1, 1, 8000, 8),
            fmt(1, 1, 44100, 16),
            chunk(b"data", &[0; 6]),
            chunk(b"data", &[0; 10]),
        ],
    );
    assert_eq!(wav_info(&bytes), Some((8000, 6)));
}

#[test]
fn sample_info_gives_the_rate_and_the_count() {
    let wave = |samples| Waveform { rate: 48000, samples };
    assert_eq!(sample_info(&wave(Samples::Eight(3))), Some((48000, 3)));
    assert_eq!(sample_info(&wave(Samples::Sixteen(0))), Some((48000, 0)));
    assert_eq!(sample_info(&wave(Samples::TwentyFour(1))), Some((48000, 1)));
    assert_eq!(sample_info(&wave(Samples::ThirtyTwoFloat(1000))), Some((48000, 1000)));
    assert_eq!(sample_info(&wave(Samples::Sixteen(usize::MAX))), Some((48000, usize::MAX)));
    assert_eq!(sample_info(&wave(Samples::Empty)), None);
}

fn expected(bytes: &[u8]) -> Option<(u32, usize)> {
    let (header, data) = wav::read(&mut Cursor::new(bytes)).ok()?;
    let count = match data {
        wav::BitDepth::Eight(v) => v.len(),
        wav::BitDepth::Sixteen(v) => v.len(),
        wav::BitDepth::TwentyFour(v) => v.len(),
        wav::BitDepth::ThirtyTwoFloat(v) => v.len(),
        wav::BitDepth::Empty => return None,
    };
    Some((header.sampling_rate, count))
}

fn number(bytes: &[u8], at: usize, width: usize) -> usize {
    (0..width).map(|k| (bytes[at + k] as usize) << (8 * k)).sum()
}

/// The first chunk with the given tag, where the walk reaches it and its
/// contents lie within the file.
fn chunk_with(bytes: &[u8], tag: &[u8; 4]) -> Option<usize> {
    let end = 4 + number(bytes, 4, 4);
    let mut at = 12;
    while at < end {
        if at + 8 > bytes.len() || std::str::from_utf8(&bytes[at..at + 4]).is_err() {
            return None;
        }
        let length = number(bytes, at + 4, 4);
        if &bytes[at..at + 4] == tag {
            return if at + 8 + length <= bytes.len() { Some(at) } else { None };
        }
        at += 8 + length + length % 2;
    }
    None
}

/// What the format says of a file, written down without the parser.
fn by_the_format(bytes: &[u8]) -> Option<(u32, usize)> {
    if bytes.len() < 12 || &bytes[8..12] != b"WAVE" {
        return None;
    }
    let header = chunk_with(bytes, b"fmt ")?;
    let data = chunk_with(bytes, b"data")?;
    if number(bytes, header + 4, 4) < 16 {
        return None;
    }
    let format = number(bytes, header + 8, 2);
    let rate = number(bytes, header + 12, 4) as u32;
    let bits = number(bytes, header + 22, 2);
    let length = number(bytes, data + 4, 4);
    match (format, bits) {
        (1, 8) => Some((rate, length)),
        (1, 16) => Some((rate, length / 2)),
        (1, 24) => Some((rate, length / 3)),
        (3, 32) => Some((rate, length / 4)),
        _ => None,
    }
}

fn samples() -> Vec<Vec<u8>> {
    vec![
        form(b"WAVE", &[fmt(1, 1, 16000, 16), chunk(b"data", &[7; 10])]),
        form(b"WAVE", &[chunk(b"LIST", b"abc"), fmt(1, 2, 8000, 8), chunk(b"data", &[7; 5])]),
        form(b"WAVE", &[chunk(b"data", &[7; 12]), chunk(b"fact", &[1; 4]), fmt(3, 1, 44100, 32)]),
        form(b"WAVE", &[fmt(1, 1, 22050, 24), chunk(b"data", &[7; 9]), chunk(b"cue ", &[])]),
    ]
}

#[test]
fn readable_files_give_what_the_parser_reads() {
    for bytes in samples() {
        assert!(is_readable(&bytes));
        assert!(wav_info(&bytes).is_some());
        assert_eq!(wav_info(&bytes), expected(&bytes));
        assert_eq!(wav_info(&bytes), by_the_format(&bytes));
    }
}

#[test]
fn files_with_one_byte_changed_never_stop_the_parser() {
    let values = [0u8, 1, 2, 3, 4, 8, 12, 16, 24, 32, 0x20, 0x41, 0x7F, 0x80, 0xC3, 0xE2, 0xFF];
    for bytes in samples() {
        for at in 0..bytes.len() {
            for value in values {
                let mut changed = bytes.clone();
                changed[at] = value;
                let clip = wav_info(&changed);
                assert_eq!(clip, by_the_format(&changed));
                if is_readable(&changed) {
                    assert_eq!(clip, expected(&changed));
                } else {
                    assert_eq!(clip, None);
                }
            }
        }
    }
}

#[test]
fn files_with_random_changes_never_stop_the_parser() {
    let mut state: u64 = 0x2545_F491_4F6C_DD1D;
    let mut next = move || {
        state ^= state << 13;
        state ^= state >> 7;
        state ^= state << 17;
        state
    };
    for bytes in samples() {
        for _ in 0..4000 {
            let mut changed = bytes.clone();
            for _ in 0..1 + next() % 4 {
                let at = (next() % changed.len() as u64) as usize;
                changed[at] = (next() >> 32) as u8;
            }
            let keep = (next() % (changed.len() as u64 + 1)) as usize;
            if next() % 4 == 0 {
                changed.truncate(keep);
            }
            let clip = wav_info(&changed);
            assert_eq!(clip, by_the_format(&changed));
            if is_readable(&changed) {
                assert_eq!(clip, expected(&changed));
            } else {
                assert_eq!(clip, None);
            }
        }
    }
}

#[test]
fn a_longer_header_chunk_is_read_by_its_first_sixteen_bytes() {
    let mut header = fmt(1, 1, 32000, 16);
    header[4] = 18;
    header.extend_from_slice(&[0, 0]);
    let bytes = form(b"WAVE", &[header, chunk(b"data", &[0; 20])]);
    assert_eq!(wav_info(&bytes), Some((32000, 10)));
    assert_eq!(wav_info(&bytes), by_the_format(&bytes));
    assert_eq!(wav_info(&bytes), expected(&bytes));
}
