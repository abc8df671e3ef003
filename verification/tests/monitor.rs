use midi_looper::monitor::note_name;
use midi_looper::monitor::parse_midi_message;
use midi_looper::options::clamp_repeat_count;
use midi_looper::ports::is_iac_name;
use midi_looper::ports::preferred_port;

fn words(message: &[u8]) -> (String, String) {
    let (kind, details) = parse_midi_message(message);
    (kind.to_string(), details)
}

fn pair(kind: &str, details: &str) -> (String, String) {
    (kind.to_string(), details.to_string())
}

#[test]
fn notes_are_named_by_pitch_and_octave() {
    assert_eq!(note_name(0), "C-1");
    assert_eq!(note_name(11), "B-1");
    assert_eq!(note_name(12), "C0");
    assert_eq!(note_name(60), "C4");
    assert_eq!(note_name(61), "C#4");
    assert_eq!(note_name(69), "A4");
    assert_eq!(note_name(127), "G9");
    assert_eq!(note_name(255), "D#20");
}

#[test]
fn real_time_messages_are_told_by_their_byte() {
    assert_eq!(words(&[]), pair("EMPTY", ""));
    assert_eq!(words(&[0xF8]), pair("CLOCK", "MIDI Clock pulse (24 ppqn)"));
    assert_eq!(words(&[0xFA]), pair("START", "Start playback from beginning"));
    assert_eq!(words(&[0xFB, 1, 2]), pair("CONTINUE", "Continue playback"));
    assert_eq!(words(&[0xFC]), pair("STOP", "Stop playback"));
    assert_eq!(words(&[0xFE]), pair("ACTIVE_SENSE", "Active sensing"));
    assert_eq!(words(&[0xFF]), pair("RESET", "System reset"));
}

#[test]
fn channel_messages_show_channel_and_data() {
    assert_eq!(words(&[0x80, 60, 0]), pair("NOTE_OFF", "Ch:1 Note:C4 Vel:0"));
    assert_eq!(words(&[0x8F, 60]), pair("NOTE_OFF", "Ch:16"));
    assert_eq!(words(&[0x93, 61, 100]), pair("NOTE_ON", "Ch:4 Note:C#4 Vel:100"));
    assert_eq!(words(&[0x93, 61, 0]), pair("NOTE_OFF", "Ch:4 Note:C#4 Vel:0"));
    assert_eq!(words(&[0x93]), pair("NOTE_ON", "Ch:4"));
    assert_eq!(words(&[0xA0, 1, 2]), pair("POLY_PRESSURE", "Ch:1"));
    assert_eq!(words(&[0xB0, 119, 127]), pair("CONTROL_CHANGE", "Ch:1 CC:119 Val:127"));
    assert_eq!(words(&[0xB9, 119]), pair("CONTROL_CHANGE", "Ch:10"));
    assert_eq!(words(&[0xC2, 5]), pair("PROGRAM_CHANGE", "Ch:3 Prog:5"));
    assert_eq!(words(&[0xC2]), pair("PROGRAM_CHANGE", "Ch:3"));
    assert_eq!(words(&[0xD1, 9]), pair("CHANNEL_PRESSURE", "Ch:2"));
    assert_eq!(words(&[0xE0, 0x00, 0x40]), pair("PITCH_BEND", "Ch:1 Val:8192"));
    assert_eq!(words(&[0xE0, 0x7F, 0x7F]), pair("PITCH_BEND", "Ch:1 Val:16383"));
    assert_eq!(words(&[0xE0, 0xFF, 0xFF]), pair("PITCH_BEND", "Ch:1 Val:32767"));
    assert_eq!(words(&[0xE5, 0x00]), pair("PITCH_BEND", "Ch:6"));
}

#[test]
fn other_first_bytes_are_system_exclusive_or_unknown() {
    assert_eq!(words(&[0xF0, 1, 2, 0xF7]), pair("SYSEX", "4 bytes"));
    assert_eq!(words(&[0xF9]), pair("SYSEX", "1 bytes"));
    assert_eq!(words(&[0x00]), pair("UNKNOWN", "Status: 0x00"));
    assert_eq!(words(&[0x7F, 9]), pair("UNKNOWN", "Status: 0x7F"));
    assert_eq!(words(&[0x4A]), pair("UNKNOWN", "Status: 0x4A"));
}

#[test]
fn the_inter_application_port_is_preferred() {
    let names = |list: &[&str]| -> Vec<String> { list.iter().map(|n| n.to_string()).collect() };
    assert_eq!(preferred_port(&names(&[])), None);
    assert_eq!(preferred_port(&names(&["USB MIDI"])), Some(0));
    assert_eq!(preferred_port(&names(&["USB MIDI", "IAC Driver Bus 1", "My IAC"])), Some(1));
    assert_eq!(preferred_port(&names(&["iac", "IA C", "AIAC"])), Some(2));
    assert_eq!(preferred_port(&names(&["a", "b"])), Some(0));
    assert!(is_iac_name("IAC"));
    assert!(is_iac_name("xxIAC"));
    assert!(!is_iac_name("IA"));
    assert!(!is_iac_name(""));
    assert!(!is_iac_name("I-A-C"));
    assert!(is_iac_name("é IAC é"));
}

#[test]
fn repeat_counts_from_the_table_stay_in_range() {
    assert_eq!(clamp_repeat_count(0), 1);
    assert_eq!(clamp_repeat_count(1), 1);
    assert_eq!(clamp_repeat_count(42), 42);
    assert_eq!(clamp_repeat_count(999), 999);
    assert_eq!(clamp_repeat_count(1000), 999);
    assert_eq!(clamp_repeat_count(u32::MAX), 999);
}

#[test]
fn the_screenshot_trigger_is_controller_119_at_127() {
    use_trigger(&midi_looper::midi::SCREENSHOT_TRIGGER, true);
    use_trigger(&[0xB5, 119, 127], true);
    use_trigger(&[0xB0, 119, 127, 0], true);
    use_trigger(&[0xB0, 119, 126], false);
    use_trigger(&[0xB0, 118, 127], false);
    use_trigger(&[0x90, 119, 127], false);
    use_trigger(&[0xB0, 119], false);
    use_trigger(&[], false);
}

fn use_trigger(message: &[u8], expected: bool) {
    assert_eq!(midi_looper::midi::is_screenshot_trigger(message), expected);
}
