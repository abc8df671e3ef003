use midi_looper::playback::loops::check_track_fits;
use midi_looper::playback::loops::encode_voice;
use midi_looper::playback::LoadError;
use midi_looper::playback::Loop;
use midi_looper::playback::LoopEvent;
use midi_looper::smf::find_overflowing_rate;
use midi_looper::smf::ChannelMessage;
use midi_looper::smf::ChannelVoice;
use midi_looper::smf::FileTiming;
use midi_looper::smf::MidiFile;
use midi_looper::smf::TrackItem;

/// A file header for `tracks` tracks with the two division bytes given.
fn header(tracks: u8, division: [u8; 2]) -> Vec<u8> {
    vec![0x4D, 0x54, 0x68, 0x64, 0, 0, 0, 6, 0, 1, 0, tracks, division[0], division[1]]
}

/// A track chunk around `events`.
fn track(events: &[u8]) -> Vec<u8> {
    let mut chunk = vec![0x4D, 0x54, 0x72, 0x6B, 0, 0, 0, events.len() as u8];
    chunk.extend_from_slice(events);
    chunk
}

fn summary(looped: &Loop) -> Vec<(u64, u8, Vec<u8>)> {
    looped.events.iter().map(|e| (e.clock_position, e.channel, e.message.clone())).collect()
}

fn note(delta: u32, channel: u8, message: ChannelMessage) -> TrackItem {
    TrackItem { delta, voice: Some(ChannelVoice { channel, message }) }
}

fn rest(delta: u32) -> TrackItem {
    TrackItem { delta, voice: None }
}

#[test]
fn bytes_of_a_file_become_a_quantized_loop() {
    let mut data = header(1, [0x00, 0x60]);
    data.extend(track(&[
        0x00, 0x90, 0x3C, 0x64, // note on at tick 0
        0x60, 0x80, 0x3C, 0x00, // note off 96 ticks later
        0x00, 0xFF, 0x2F, 0x00, // end of track
    ]));
    let looped = Loop::from_bytes("riff".to_string(), &data, 4).unwrap();
    assert_eq!(looped.name, "riff");
    assert_eq!(looped.length_clocks, 4 * 96);
    assert_eq!(
        summary(&looped),
        vec![(0, 0, vec![0x90, 0x3C, 0x64]), (24, 0, vec![0x80, 0x3C, 0x00])]
    );
}

#[test]
fn running_status_and_channels_are_decoded() {
    let mut data = header(1, [0x01, 0xE0]); // 480 ticks per beat
    data.extend(track(&[
        0x00, 0x93, 0x40, 0x50, // note on, channel 3
        0x83, 0x60, 0x41, 0x51, // 480 ticks later, running status: another note on
        0x00, 0xB3, 0x07, 0x7F, // controller 7
        0x0A, 0xC3, 0x05, // 10 ticks later: program change
        0x00, 0xD3, 0x22, // channel pressure
        0x00, 0xA3, 0x40, 0x11, // poly pressure
        0x00, 0xFF, 0x2F, 0x00,
    ]));
    let looped = Loop::from_bytes("x".to_string(), &data, 1).unwrap();
    assert_eq!(
        summary(&looped),
        vec![
            (0, 3, vec![0x93, 0x40, 0x50]),
            (24, 3, vec![0x93, 0x41, 0x51]),
            (24, 3, vec![0xB3, 0x07, 0x7F]),
            (24, 3, vec![0xC3, 0x05]), // 490 * 24 / 480 = 24.5, rounded down
            (24, 3, vec![0xD3, 0x22]),
            (24, 3, vec![0xA3, 0x40, 0x11]),
        ]
    );
}

#[test]
fn pitch_bend_keeps_the_bytes_of_the_file() {
    let mut data = header(1, [0x00, 0x18]);
    data.extend(track(&[
        0x00, 0xE1, 0x00, 0x40, // centre
        0x00, 0xE1, 0x7F, 0x7F, // full up
        0x00, 0xE1, 0x12, 0x03,
        0x00, 0xFF, 0x2F, 0x00,
    ]));
    let looped = Loop::from_bytes("bend".to_string(), &data, 1).unwrap();
    assert_eq!(
        summary(&looped),
        vec![
            (0, 1, vec![0xE1, 0x00, 0x40]),
            (0, 1, vec![0xE1, 0x7F, 0x7F]),
            (0, 1, vec![0xE1, 0x12, 0x03]),
        ]
    );
}

#[test]
fn tracks_are_merged_in_order_of_position() {
    let mut data = header(2, [0x00, 0x18]); // 24 ticks per beat: one tick is one pulse
    data.extend(track(&[
        0x05, 0x90, 0x30, 0x10, // position 5
        0x05, 0x90, 0x31, 0x10, // position 10
        0x00, 0xFF, 0x2F, 0x00,
    ]));
    data.extend(track(&[
        0x02, 0x91, 0x40, 0x10, // position 2
        0x03, 0x91, 0x41, 0x10, // position 5: behind the first track's event there
        0x09, 0x91, 0x42, 0x10, // position 14
        0x00, 0xFF, 0x2F, 0x00,
    ]));
    let looped = Loop::from_bytes("two".to_string(), &data, 1).unwrap();
    assert_eq!(
        summary(&looped),
        vec![
            (2, 1, vec![0x91, 0x40, 0x10]),
            (5, 0, vec![0x90, 0x30, 0x10]),
            (5, 1, vec![0x91, 0x41, 0x10]),
            (10, 0, vec![0x90, 0x31, 0x10]),
            (14, 1, vec![0x91, 0x42, 0x10]),
        ]
    );
}

#[test]
fn events_past_the_loop_length_are_kept() {
    let mut data = header(1, [0x00, 0x18]);
    data.extend(track(&[0x00, 0x90, 0x30, 0x10, 0x81, 0x00, 0x80, 0x30, 0x00]));
    // Zero bars: the loop is empty in time, its events are all still there.
    let looped = Loop::from_bytes("long".to_string(), &data, 0).unwrap();
    assert_eq!(looped.length_clocks, 0);
    assert_eq!(summary(&looped), vec![(0, 0, vec![0x90, 0x30, 0x10]), (128, 0, vec![0x80, 0x30, 0x00])]);
}

#[test]
fn bytes_that_are_no_file_are_malformed() {
    for data in [&b""[..], &b"hello"[..], &b"MTrk\x00\x00\x00\x00"[..], &b"MThd\x00\x00"[..]] {
        match Loop::from_bytes("bad".to_string(), data, 4) {
            Err(LoadError::Malformed { reason }) => assert!(!reason.is_empty()),
            other => panic!("expected a malformed file, got {:?}", other.map(|l| l.name)),
        }
    }
}

#[test]
fn time_code_timing_is_unsupported() {
    let mut data = header(1, [0xE7, 0x28]); // 25 frames a second, 40 ticks a frame
    data.extend(track(&[0x00, 0x90, 0x3C, 0x64, 0x00, 0xFF, 0x2F, 0x00]));
    assert!(matches!(Loop::from_bytes("smpte".to_string(), &data, 4), Err(LoadError::UnsupportedTiming)));
}

#[test]
fn zero_ticks_per_beat_is_an_error() {
    let mut data = header(1, [0x00, 0x00]);
    data.extend(track(&[0x00, 0x90, 0x3C, 0x64, 0x00, 0xFF, 0x2F, 0x00]));
    assert!(matches!(Loop::from_bytes("zero".to_string(), &data, 4), Err(LoadError::ZeroTicksPerBeat)));
}

#[test]
fn a_rate_of_minus_128_never_reaches_the_decoder() {
    let mut data = header(1, [0x80, 0x10]);
    data.extend(track(&[0x00, 0x90, 0x3C, 0x64]));
    assert!(find_overflowing_rate(&data));
    assert!(matches!(Loop::from_bytes("odd".to_string(), &data, 4), Err(LoadError::Malformed { .. })));
    // The same byte elsewhere is harmless.
    let mut fine = header(1, [0x00, 0x60]);
    fine.extend(track(&[0x00, 0x80, 0x3C, 0x00]));
    assert!(!find_overflowing_rate(&fine));
    assert!(Loop::from_bytes("fine".to_string(), &fine, 4).is_ok());
    assert!(!find_overflowing_rate(&[]));
    assert!(!find_overflowing_rate(&[0x4D, 0x54, 0x68, 0x64, 0, 0, 0, 0, 0, 0, 0, 0]));
    // Not at the start of a chunk: no header.
    assert!(!find_overflowing_rate(&[9, 0x4D, 0x54, 0x68, 0x64, 0, 0, 0, 6, 0, 1, 0, 1, 0x80, 0]));
    // An unknown format is refused before the rate is looked at.
    assert!(!find_overflowing_rate(&[0x4D, 0x54, 0x68, 0x64, 0, 0, 0, 6, 0, 3, 0, 1, 0x80, 0]));
    // A header cut short of its division has no rate.
    assert!(!find_overflowing_rate(&[0x4D, 0x54, 0x68, 0x64, 0, 0, 0, 5, 0, 1, 0, 1, 0x80, 0]));
}

/// A track whose first event is a text event with the bytes given.
fn text_track(text: &[u8]) -> Vec<u8> {
    let mut events = vec![0x00, 0xFF, 0x01, text.len() as u8];
    events.extend_from_slice(text);
    events.extend_from_slice(&[0x00, 0x90, 0x3C, 0x64, 0x00, 0xFF, 0x2F, 0x00]);
    track(&events)
}

#[test]
fn a_header_tag_inside_a_track_is_no_header() {
    // "MThd" in a text event, with 0x80 twelve bytes behind the tag.
    let text = [0x4D, 0x54, 0x68, 0x64, 0, 0, 0, 6, 0, 1, 0, 1, 0x80, 0];
    let mut data = header(1, [0x00, 0x60]);
    data.extend(text_track(&text));
    assert!(!find_overflowing_rate(&data));
    let looped = Loop::from_bytes("text".to_string(), &data, 1).unwrap();
    assert_eq!(summary(&looped), vec![(0, 0, vec![0x90, 0x3C, 0x64])]);
}

#[test]
fn a_second_header_chunk_is_walked_too() {
    let mut data = header(1, [0x00, 0x60]);
    data.extend(track(&[0x00, 0x90, 0x3C, 0x64]));
    data.extend(header(1, [0x80, 0x00]));
    assert!(find_overflowing_rate(&data));
    assert!(matches!(Loop::from_bytes("two".to_string(), &data, 1), Err(LoadError::Malformed { .. })));
    // A harmless second header is skipped by the decoder.
    let mut fine = header(1, [0x00, 0x60]);
    fine.extend(track(&[0x00, 0x90, 0x3C, 0x64]));
    fine.extend(header(1, [0x00, 0x30]));
    fine.extend(track(&[0x00, 0x80, 0x3C, 0x00]));
    assert!(!find_overflowing_rate(&fine));
    let looped = Loop::from_bytes("fine".to_string(), &fine, 1).unwrap();
    assert_eq!(summary(&looped), vec![(0, 0, vec![0x90, 0x3C, 0x64]), (0, 0, vec![0x80, 0x3C, 0x00])]);
}

/// `smf` wrapped as the `data` chunk of a RIFF form, behind a chunk of
/// three bytes and its padding.
fn riff(smf: &[u8]) -> Vec<u8> {
    let mut form = b"RMID".to_vec();
    form.extend_from_slice(b"note");
    form.extend_from_slice(&3u32.to_le_bytes());
    form.extend_from_slice(&[1, 2, 3, 0]);
    form.extend_from_slice(b"data");
    form.extend_from_slice(&(smf.len() as u32).to_le_bytes());
    form.extend_from_slice(smf);
    let mut data = b"RIFF".to_vec();
    data.extend_from_slice(&(form.len() as u32).to_le_bytes());
    data.extend(form);
    data
}

#[test]
fn a_file_in_a_riff_wrapper_is_unwrapped() {
    let mut smf = header(1, [0x00, 0x18]);
    smf.extend(text_track(&[0x4D, 0x54, 0x68, 0x64, 0, 0, 0, 6, 0, 1, 0, 1, 0x80, 0]));
    let data = riff(&smf);
    assert!(!find_overflowing_rate(&data));
    let looped = Loop::from_bytes("wrapped".to_string(), &data, 1).unwrap();
    assert_eq!(summary(&looped), vec![(0, 0, vec![0x90, 0x3C, 0x64])]);

    let mut odd = header(1, [0x80, 0x18]);
    odd.extend(track(&[0x00, 0x90, 0x3C, 0x64]));
    let wrapped = riff(&odd);
    assert!(find_overflowing_rate(&wrapped));
    assert!(matches!(Loop::from_bytes("odd".to_string(), &wrapped, 1), Err(LoadError::Malformed { .. })));

    // A wrapper of another form, or without a data chunk, holds no file.
    let mut other = riff(&odd);
    other[8] = b'W';
    assert!(!find_overflowing_rate(&other));
    assert!(matches!(Loop::from_bytes("other".to_string(), &other, 1), Err(LoadError::Malformed { .. })));
    assert!(!find_overflowing_rate(b"RIFF"));
    assert!(!find_overflowing_rate(b"RIFF\x04\x00\x00\x00RMID"));
}

#[test]
fn a_decoded_file_becomes_a_loop() {
    let file = MidiFile {
        timing: FileTiming::Metrical(48),
        tracks: vec![
            vec![
                rest(10),
                note(38, 2, ChannelMessage::NoteOn { key: 60, vel: 100 }), // tick 48
                note(1, 2, ChannelMessage::NoteOff { key: 60, vel: 0 }),   // tick 49
                rest(1000),
            ],
            vec![note(3, 9, ChannelMessage::Controller { controller: 1, value: 2 })], // tick 3
            vec![],
        ],
    };
    let looped = Loop::from_midi("made".to_string(), &file, 2).unwrap();
    assert_eq!(looped.length_clocks, 192);
    assert_eq!(
        summary(&looped),
        vec![
            (1, 9, vec![0xB9, 1, 2]),      // 3 * 24 / 48 = 1
            (24, 2, vec![0x92, 60, 100]),  // 48 * 24 / 48
            (24, 2, vec![0x82, 60, 0]),    // 49 * 24 / 48 = 24
        ]
    );
}

#[test]
fn a_decoded_file_is_refused_for_each_reason_in_turn() {
    let timecode = MidiFile { timing: FileTiming::Timecode, tracks: vec![vec![rest(u32::MAX)]] };
    assert!(matches!(Loop::from_midi("a".to_string(), &timecode, 1), Err(LoadError::UnsupportedTiming)));
    let zero = MidiFile { timing: FileTiming::Metrical(0), tracks: vec![] };
    assert!(matches!(Loop::from_midi("b".to_string(), &zero, 1), Err(LoadError::ZeroTicksPerBeat)));
    // 2^32 deltas of 2^32 - 1 would be needed in earnest; a track of huge
    // deltas shows the check at work on a small scale.
    let fits = vec![rest(u32::MAX); 1000];
    assert!(check_track_fits(&fits));
    let empty = MidiFile { timing: FileTiming::Metrical(1), tracks: vec![vec![]] };
    let looped = Loop::from_midi("c".to_string(), &empty, 0).unwrap();
    assert!(looped.events.is_empty());
    assert_eq!(looped.length_clocks, 0);
}

#[test]
fn the_longest_loop_that_fits_can_be_made() {
    let file = MidiFile { timing: FileTiming::Metrical(24), tracks: vec![] };
    let bars = u64::MAX / 96;
    let looped = Loop::from_midi("max".to_string(), &file, bars).unwrap();
    assert_eq!(looped.length_clocks, bars * 96);
}

#[test]
fn every_kind_of_message_has_its_bytes() {
    assert_eq!(encode_voice(0, ChannelMessage::NoteOff { key: 1, vel: 2 }), vec![0x80, 1, 2]);
    assert_eq!(encode_voice(15, ChannelMessage::NoteOn { key: 127, vel: 1 }), vec![0x9F, 127, 1]);
    assert_eq!(encode_voice(4, ChannelMessage::Aftertouch { key: 3, vel: 4 }), vec![0xA4, 3, 4]);
    assert_eq!(encode_voice(5, ChannelMessage::Controller { controller: 7, value: 8 }), vec![0xB5, 7, 8]);
    assert_eq!(encode_voice(6, ChannelMessage::ProgramChange { program: 9 }), vec![0xC6, 9]);
    assert_eq!(encode_voice(7, ChannelMessage::ChannelAftertouch { vel: 10 }), vec![0xD7, 10]);
    assert_eq!(encode_voice(8, ChannelMessage::PitchBend { bend: 0x2000 }), vec![0xE8, 0x00, 0x40]);
    assert_eq!(encode_voice(8, ChannelMessage::PitchBend { bend: 0x3FFF }), vec![0xE8, 0x7F, 0x7F]);
    assert_eq!(encode_voice(8, ChannelMessage::PitchBend { bend: 0x0081 }), vec![0xE8, 0x01, 0x01]);
}

#[test]
fn set_channel_touches_the_low_nibble_only() {
    let mut looped = Loop {
        name: "n".to_string(),
        length_clocks: 7,
        events: vec![
            LoopEvent { clock_position: 3, channel: 1, message: vec![0x91, 60, 100] },
            LoopEvent { clock_position: 1, channel: 2, message: vec![] },
            LoopEvent { clock_position: 9, channel: 3, message: vec![0xE3] },
        ],
    };
    looped.set_channel(0x2A);
    assert_eq!(looped.name, "n");
    assert_eq!(looped.length_clocks, 7);
    assert_eq!(
        summary(&looped),
        vec![(3, 0x2A, vec![0x9A, 60, 100]), (1, 2, vec![]), (9, 0x2A, vec![0xEA])]
    );
}

#[test]
fn a_clone_of_a_loop_is_equal_and_separate() {
    let mut first = Loop {
        name: "one".to_string(),
        length_clocks: 96,
        events: vec![LoopEvent { clock_position: 0, channel: 0, message: vec![0x90, 1, 2] }],
    };
    let second = first.clone();
    first.set_channel(5);
    assert_eq!(summary(&second), vec![(0, 0, vec![0x90, 1, 2])]);
    assert_eq!(second.name, "one");
    assert_eq!(second.length_clocks, 96);
}
