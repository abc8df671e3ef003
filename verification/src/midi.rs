//! MIDI real-time bytes and the fixed time grid.

use vstd::prelude::*;

verus! {

/// Clock pulse, sent 24 times per quarter note.
pub const MIDI_CLOCK: u8 = 0xF8;

/// Start: playback begins at position zero.
pub const MIDI_START: u8 = 0xFA;

/// Continue: playback resumes where it stopped.
pub const MIDI_CONTINUE: u8 = 0xFB;

/// Stop: playback halts and keeps its position.
pub const MIDI_STOP: u8 = 0xFC;

/// Clock pulses per beat.
pub const CLOCKS_PER_BEAT: u64 = 24;

/// Beats per bar (4/4 time).
pub const BEATS_PER_BAR: u64 = 4;

/// Clock pulses per bar.
pub const CLOCKS_PER_BAR: u64 = 96;

/// The message that asks a running looper for a screenshot: controller
/// 119 set to 127, on channel 1.
pub const SCREENSHOT_TRIGGER: [u8; 3] = [0xB0, 119, 127];

/// Whether `message` is a control change, on any channel, that sets
/// controller 119 to 127.
pub open spec fn asks_for_screenshot(message: Seq<u8>) -> bool {
    &&& message.len() >= 3
    &&& message[0] & 0xF0 == 0xB0
    &&& message[1] == 119
    &&& message[2] == 127
}

/// Decides [`asks_for_screenshot`].
pub fn is_screenshot_trigger(message: &[u8]) -> (asks: bool)
    ensures
        asks == asks_for_screenshot(message@),
{
    message.len() >= 3 && message[0] & 0xF0 == 0xB0 && message[1] == 119 && message[2] == 127
}

/// The bar and beat, both counted from one, that `pulses` clock pulses after
/// a start fall in.
pub open spec fn bar_beat(pulses: nat) -> (nat, nat) {
    (pulses / 96 + 1, (pulses / 24) % 4 + 1)
}

/// Computes [`bar_beat`] for a pulse count.
pub fn position_of(pulses: u64) -> (out: (u64, u64))
    ensures
        (out.0 as nat, out.1 as nat) == bar_beat(pulses as nat),
{
    let beats: u64 = pulses / CLOCKS_PER_BEAT;
    assert((pulses as nat / 24) / 4 == pulses as nat / 96) by (nonlinear_arith);
    (beats / BEATS_PER_BAR + 1, beats % BEATS_PER_BAR + 1)
}

} // verus!
