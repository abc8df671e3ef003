//! MIDI messages put into words, for a monitor that lists what comes in.

use crate::text::decimal;
use crate::text::decimal_string;
use vstd::prelude::*;
use vstd::string::StrSliceExecFns;
use vstd::string::StringExecFns;

verus! {

/// The name of the pitch class `class` (0 is C, 11 is B).
pub open spec fn pitch_class_name(class: nat) -> Seq<char> {
    if class == 0 {
        "C"@
    } else if class == 1 {
        "C#"@
    } else if class == 2 {
        "D"@
    } else if class == 3 {
        "D#"@
    } else if class == 4 {
        "E"@
    } else if class == 5 {
        "F"@
    } else if class == 6 {
        "F#"@
    } else if class == 7 {
        "G"@
    } else if class == 8 {
        "G#"@
    } else if class == 9 {
        "A"@
    } else if class == 10 {
        "A#"@
    } else {
        "B"@
    }
}

/// The name of the note numbered `note`: its pitch class, then its
/// octave, where note 60 is `C4` and the lowest octave is -1.
pub open spec fn note_text(note: u8) -> Seq<char> {
    pitch_class_name((note % 12) as nat) + (if note < 12 {
        "-1"@
    } else {
        decimal((note / 12 - 1) as nat)
    })
}

/// The channel of a status byte as shown: counted from one.
pub open spec fn channel_text(status: u8) -> Seq<char> {
    "Ch:"@ + decimal(((status & 0x0F) + 1) as nat)
}

/// The character of the hexadecimal digit `d`, in upper case.
pub open spec fn hex_char(d: nat) -> char {
    if d < 10 {
        ((48 + d) as u8) as char
    } else {
        ((55 + d) as u8) as char
    }
}

/// A message in words: its kind and its details.
pub struct Described {
    pub kind: Seq<char>,
    pub details: Seq<char>,
}

/// A channel message with a note and a velocity in words.
pub open spec fn note_details(message: Seq<u8>) -> Seq<char> {
    channel_text(message[0]) + " Note:"@ + note_text(message[1]) + " Vel:"@ + decimal(
        message[2] as nat,
    )
}

/// What the monitor shows for `message`.
///
/// Real-time messages are told by their one byte. Channel messages are
/// told by the high nibble of the status byte, and show their channel and,
/// where the message is complete, their data; a note on with velocity zero
/// counts as a note off. Status bytes F0 to FF that are not real-time
/// messages count as system-exclusive and show the length of the message.
/// A first byte below 80 is unknown and shown in hexadecimal.
pub open spec fn described(message: Seq<u8>) -> Described {
    if message.len() == 0 {
        Described { kind: "EMPTY"@, details: Seq::empty() }
    } else {
        let status = message[0];
        let kind = status & 0xF0;
        if status == 0xF8 {
            Described { kind: "CLOCK"@, details: "MIDI Clock pulse (24 ppqn)"@ }
        } else if status == 0xFA {
            Described { kind: "START"@, details: "Start playback from beginning"@ }
        } else if status == 0xFB {
            Described { kind: "CONTINUE"@, details: "Continue playback"@ }
        } else if status == 0xFC {
            Described { kind: "STOP"@, details: "Stop playback"@ }
        } else if status == 0xFE {
            Described { kind: "ACTIVE_SENSE"@, details: "Active sensing"@ }
        } else if status == 0xFF {
            Described { kind: "RESET"@, details: "System reset"@ }
        } else if kind == 0x80 {
            Described {
                kind: "NOTE_OFF"@,
                details: if message.len() >= 3 {
                    note_details(message)
                } else {
                    channel_text(status)
                },
            }
        } else if kind == 0x90 {
            if message.len() >= 3 {
                Described {
                    kind: if message[2] == 0 {
                        "NOTE_OFF"@
                    } else {
                        "NOTE_ON"@
                    },
                    details: note_details(message),
                }
            } else {
                Described { kind: "NOTE_ON"@, details: channel_text(status) }
            }
        } else if kind == 0xA0 {
            Described { kind: "POLY_PRESSURE"@, details: channel_text(status) }
        } else if kind == 0xB0 {
            Described {
                kind: "CONTROL_CHANGE"@,
                details: if message.len() >= 3 {
                    channel_text(status) + " CC:"@ + decimal(message[1] as nat) + " Val:"@
                        + decimal(message[2] as nat)
                } else {
                    channel_text(status)
                },
            }
        } else if kind == 0xC0 {
            Described {
                kind: "PROGRAM_CHANGE"@,
                details: if message.len() >= 2 {
                    channel_text(status) + " Prog:"@ + decimal(message[1] as nat)
                } else {
                    channel_text(status)
                },
            }
        } else if kind == 0xD0 {
            Described { kind: "CHANNEL_PRESSURE"@, details: channel_text(status) }
        } else if kind == 0xE0 {
            Described {
                kind: "PITCH_BEND"@,
                details: if message.len() >= 3 {
                    channel_text(status) + " Val:"@ + decimal(
                        (((message[2] as u16) << 7) | (message[1] as u16)) as nat,
                    )
                } else {
                    channel_text(status)
                },
            }
        } else if kind == 0xF0 {
            Described { kind: "SYSEX"@, details: decimal(message.len()) + " bytes"@ }
        } else {
            Described {
                kind: "UNKNOWN"@,
                details: "Status: 0x"@ + seq![
                    hex_char((status / 16) as nat),
                    hex_char((status % 16) as nat),
                ],
            }
        }
    }
}

/// The text of the hexadecimal digit `d`.
fn hex_text(d: u8) -> (text: &'static str)
    requires
        d < 16,
    ensures
        text@ == seq![hex_char(d as nat)],
{
    proof {
        reveal_strlit("0123456789ABCDEF");
    }
    let digits: &'static str = "0123456789ABCDEF";
    assert(digits.is_ascii()) by {
        assert(forall|i: int| 0 <= i < digits@.len() ==> digits@[i] as u32 <= 0x7F);
    }
    let text: &'static str = digits.substring_ascii(d as usize, d as usize + 1);
    assert(text@ =~= seq![hex_char(d as nat)]);
    text
}

/// Writes [`note_text`].
pub fn note_name(note: u8) -> (name: String)
    ensures
        name@ == note_text(note),
{
    let class: u8 = note % 12;
    let letter: &'static str = if class == 0 {
        "C"
    } else if class == 1 {
        "C#"
    } else if class == 2 {
        "D"
    } else if class == 3 {
        "D#"
    } else if class == 4 {
        "E"
    } else if class == 5 {
        "F"
    } else if class == 6 {
        "F#"
    } else if class == 7 {
        "G"
    } else if class == 8 {
        "G#"
    } else if class == 9 {
        "A"
    } else if class == 10 {
        "A#"
    } else {
        "B"
    };
    let mut name: String = String::from_str(letter);
    if note < 12 {
        name.append("-1");
    } else {
        let octave: String = decimal_string((note / 12 - 1) as u64);
        name.append(octave.as_str());
    }
    name
}

/// Writes [`channel_text`].
fn channel_string(status: u8) -> (text: String)
    ensures
        text@ == channel_text(status),
{
    let low: u8 = status & 0x0F;
    assert(low <= 15) by (bit_vector)
        requires
            low == status & 0x0F,
    ;
    let mut text: String = String::from_str("Ch:");
    let number: String = decimal_string((low + 1) as u64);
    text.append(number.as_str());
    text
}

/// Appends a label and a number in decimal.
fn append_number(text: &mut String, label: &str, number: u64)
    ensures
        final(text)@ == old(text)@ + label@ + decimal(number as nat),
{
    text.append(label);
    let digits: String = decimal_string(number);
    text.append(digits.as_str());
}

/// Writes [`note_details`].
fn note_string(message: &[u8]) -> (text: String)
    requires
        message@.len() >= 3,
    ensures
        text@ == note_details(message@),
{
    let mut text: String = channel_string(message[0]);
    text.append(" Note:");
    let name: String = note_name(message[1]);
    text.append(name.as_str());
    append_number(&mut text, " Vel:", message[2] as u64);
    text
}

/// Puts `message` into words: its kind and its details.
pub fn parse_midi_message(message: &[u8]) -> (out: (&'static str, String))
    ensures
        (Described { kind: out.0@, details: out.1@ }) == described(message@),
{
    if message.len() == 0 {
        return ("EMPTY", String::new());
    }
    let status: u8 = message[0];
    if status == 0xF8 {
        return ("CLOCK", String::from_str("MIDI Clock pulse (24 ppqn)"));
    } else if status == 0xFA {
        return ("START", String::from_str("Start playback from beginning"));
    } else if status == 0xFB {
        return ("CONTINUE", String::from_str("Continue playback"));
    } else if status == 0xFC {
        return ("STOP", String::from_str("Stop playback"));
    } else if status == 0xFE {
        return ("ACTIVE_SENSE", String::from_str("Active sensing"));
    } else if status == 0xFF {
        return ("RESET", String::from_str("System reset"));
    }
    let kind: u8 = status & 0xF0;
    if kind == 0x80 {
        if message.len() >= 3 {
            ("NOTE_OFF", note_string(message))
        } else {
            ("NOTE_OFF", channel_string(status))
        }
    } else if kind == 0x90 {
        if message.len() >= 3 {
            let label: &'static str = if message[2] == 0 {
                "NOTE_OFF"
            } else {
                "NOTE_ON"
            };
            (label, note_string(message))
        } else {
            ("NOTE_ON", channel_string(status))
        }
    } else if kind == 0xA0 {
        ("POLY_PRESSURE", channel_string(status))
    } else if kind == 0xB0 {
        let mut text: String = channel_string(status);
        if message.len() >= 3 {
            append_number(&mut text, " CC:", message[1] as u64);
            append_number(&mut text, " Val:", message[2] as u64);
        }
        ("CONTROL_CHANGE", text)
    } else if kind == 0xC0 {
        let mut text: String = channel_string(status);
        if message.len() >= 2 {
            append_number(&mut text, " Prog:", message[1] as u64);
        }
        ("PROGRAM_CHANGE", text)
    } else if kind == 0xD0 {
        ("CHANNEL_PRESSURE", channel_string(status))
    } else if kind == 0xE0 {
        let mut text: String = channel_string(status);
        if message.len() >= 3 {
            let high: u16 = message[2] as u16;
            let low: u16 = message[1] as u16;
            assert(high << 7 <= 0x7F80) by (bit_vector)
                requires
                    high <= 0xFF,
            ;
            let value: u16 = (high << 7) | low;
            append_number(&mut text, " Val:", value as u64);
        }
        ("PITCH_BEND", text)
    } else if kind == 0xF0 {
        let mut text: String = decimal_string(message.len() as u64);
        text.append(" bytes");
        ("SYSEX", text)
    } else {
        let mut text: String = String::from_str("Status: 0x");
        text.append(hex_text(status / 16));
        text.append(hex_text(status % 16));
        assert(text@ =~= "Status: 0x"@ + seq![
            hex_char((status / 16) as nat),
            hex_char((status % 16) as nat),
        ]);
        ("UNKNOWN", text)
    }
}

} // verus!
