use midi_motion::convert;
use midi_motion::midi::{parse, MidiError};

fn header(format: u8, ntrks: u8, division_hi: u8, division_lo: u8) -> Vec<u8> {
    vec![
        b'M', b'T', b'h', b'd', 0, 0, 0, 6, 0, format, 0, ntrks, division_hi, division_lo,
    ]
}

fn track_chunk(events: &[u8]) -> Vec<u8> {
    let mut chunk = vec![b'M', b'T', b'r', b'k'];
    chunk.extend_from_slice(&(events.len() as u32).to_be_bytes());
    chunk.extend_from_slice(events);
    chunk
}

#[test]
fn two_track_file_end_to_end() {
    // tpq = 4 (one tick per sixteenth step). Track 1 strikes pitch 60 at
    // ticks 0 and 1, track 2 pitch 64 at ticks 0 and 1; tracks 3-4 absent.
    let mut data = header(1, 2, 0, 4);
    data.extend(track_chunk(&[
        0x00, 0x90, 60, 64, // delta 0, note-on 60 vel 64
        0x01, 0x90, 60, 64, // delta 1, note-on 60 vel 64
        0x00, 0xFF, 0x2F, 0x00, // end of track
    ]));
    data.extend(track_chunk(&[
        0x00, 0x90, 64, 64, 0x01, 0x90, 64, 64, 0x00, 0xFF, 0x2F, 0x00,
    ]));
    let frames = parse(&data).unwrap();
    assert_eq!(frames, vec![[60, 64, 0, 0], [60, 64, 0, 0]]);
    let motions = convert(frames);
    assert_eq!(motions, vec![[0, 0, 0, 0]]);
}

#[test]
fn malformed_bytes_are_a_parse_error() {
    let data = b"this is not a midi file at all";
    assert_eq!(parse(data), Err(MidiError::ParseError));
}

#[test]
fn truncated_header_is_a_parse_error() {
    let data = [b'M', b'T', b'h', b'd', 0, 0];
    assert_eq!(parse(&data), Err(MidiError::ParseError));
}

#[test]
fn timecode_timing_is_unsupported() {
    // Division with the high bit set declares SMPTE timecode timing
    // (here -25 fps, 40 subframes).
    let mut data = header(0, 1, 0xE7, 0x28);
    data.extend(track_chunk(&[0x00, 0xFF, 0x2F, 0x00]));
    assert_eq!(parse(&data), Err(MidiError::TimingUnsupported));
}

#[test]
fn too_coarse_metrical_timing_is_unsupported() {
    // tpq = 2 leaves no whole tick for a sixteenth step.
    let mut data = header(0, 1, 0, 2);
    data.extend(track_chunk(&[0x00, 0xFF, 0x2F, 0x00]));
    assert_eq!(parse(&data), Err(MidiError::TimingUnsupported));
}

#[test]
fn note_off_messages_do_not_register() {
    // A note-on at tick 0 and a note-off (0x80) at tick 2: the recorded
    // range ends at tick 0, so a single sustained frame comes out.
    let mut data = header(0, 1, 0, 4);
    data.extend(track_chunk(&[
        0x00, 0x90, 72, 100, // note-on
        0x02, 0x80, 72, 0, // note-off
        0x00, 0xFF, 0x2F, 0x00,
    ]));
    let frames = parse(&data).unwrap();
    assert_eq!(frames, vec![[72, 0, 0, 0]]);
}
