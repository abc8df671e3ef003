//! The pulse path: what a message from the clock source, a pulse of the
//! built-in clock or a press of a transport button does to the transport
//! and the player, and which messages go out in answer.
//!
//! The functions here decide; sending, sleeping and listening are left to
//! the caller.

use crate::clock::is_pulse;
use crate::clock::is_start;
use crate::clock::ClockModel;
use crate::clock::ClockState;
use crate::midi::MIDI_CLOCK;
use crate::midi::MIDI_START;
use crate::midi::MIDI_STOP;
use crate::playback::player::batch_view;
use crate::playback::player::PlayerModel;
use crate::playback::player::SequencePlayer;
use vstd::prelude::*;

verus! {

/// Transport, player and outgoing messages after a step of the pulse path.
pub struct Routed {
    pub clock: ClockModel,
    pub player: PlayerModel,
    pub out: Seq<Seq<u8>>,
}

/// What a message from an external clock source leads to.
///
/// While the built-in clock is master, the message is ignored. Else the
/// transport takes it in. A clock pulse then ticks the player at the new
/// pulse count if the transport runs; a START sends the player back to
/// the beginning.
pub open spec fn routed(
    clock: ClockModel,
    player: PlayerModel,
    message: Seq<u8>,
    now: u64,
    master_mode: bool,
) -> Routed {
    if master_mode {
        Routed { clock, player, out: Seq::empty() }
    } else {
        let after = clock.after_message(message, now);
        if is_pulse(message) && after.running {
            let ticked = player.ticked(after.pulse_count as nat);
            Routed { clock: after, player: ticked.0, out: ticked.1 }
        } else if is_start(message) {
            Routed { clock: after, player: player.reset(), out: Seq::empty() }
        } else {
            Routed { clock: after, player, out: Seq::empty() }
        }
    }
}

/// What a pulse of the built-in clock leads to: the transport takes the
/// pulse in, the player is ticked at the new pulse count, and the pulse
/// goes out ahead of the player's messages.
pub open spec fn master_pulsed(clock: ClockModel, player: PlayerModel, now: u64) -> Routed {
    let after = clock.after_pulse(now);
    let ticked = player.ticked(after.pulse_count as nat);
    Routed { clock: after, player: ticked.0, out: seq![seq![MIDI_CLOCK]] + ticked.1 }
}

/// The transport after a message in which time plays no part.
pub open spec fn after_transport(clock: ClockModel, byte: u8) -> ClockModel {
    clock.after_message(seq![byte], 0)
}

/// What a press of the play button leads to: a STOP, if the transport
/// runs, and a START go out; where the built-in clock is master, the
/// transport takes the same messages in and the player goes back to the
/// beginning.
pub open spec fn play_pressed(clock: ClockModel, player: PlayerModel, master_mode: bool) -> Routed {
    let out = if clock.running {
        seq![seq![MIDI_STOP], seq![MIDI_START]]
    } else {
        seq![seq![MIDI_START]]
    };
    if master_mode {
        let stopped = if clock.running {
            after_transport(clock, MIDI_STOP)
        } else {
            clock
        };
        Routed { clock: after_transport(stopped, MIDI_START), player: player.reset(), out }
    } else {
        Routed { clock, player, out }
    }
}

/// The deadline of the pulse numbered `pulse_index`, in nanoseconds after
/// the first: that many pulse lengths of a 24th of a beat at `bpm` beats a
/// minute, rounded down as a whole, so that no error adds up.
pub open spec fn pulse_deadline(pulse_index: nat, bpm: nat) -> nat {
    (pulse_index * 60_000_000_000) / (bpm * 24)
}

/// Takes a message from an external clock source at `now` nanoseconds.
/// Returns the messages to send in answer.
pub fn route_message_at(
    clock: &mut ClockState,
    player: &mut SequencePlayer,
    message: &[u8],
    now: u64,
    master_mode: bool,
) -> (out: Vec<Vec<u8>>)
    requires
        old(player)@.wf(),
    ensures
        (Routed { clock: final(clock)@, player: final(player)@, out: batch_view(out@) }) == routed(
            old(clock)@,
            old(player)@,
            message@,
            now,
            master_mode,
        ),
        final(player)@.wf(),
{
    if master_mode {
        return no_messages();
    }
    clock.handle_midi_message_at(message, now);
    if message.len() > 0 && message[0] == MIDI_CLOCK {
        if clock.is_running() {
            return player.tick(clock.get_clock_count());
        }
    } else if message.len() > 0 && message[0] == MIDI_START {
        player.reset();
    }
    no_messages()
}

/// Takes a message from an external clock source, timed by the monotonic
/// clock. Returns the messages to send in answer.
pub fn route_message(
    clock: &mut ClockState,
    player: &mut SequencePlayer,
    message: &[u8],
    master_mode: bool,
) -> (out: Vec<Vec<u8>>)
    requires
        old(player)@.wf(),
    ensures
        exists|now: u64|
            (Routed { clock: final(clock)@, player: final(player)@, out: batch_view(out@) })
                == #[trigger] routed(old(clock)@, old(player)@, message@, now, master_mode),
        final(player)@.wf(),
{
    let now: u64 = clock.now();
    route_message_at(clock, player, message, now, master_mode)
}

/// Takes a pulse of the built-in clock at `now` nanoseconds. Returns the
/// messages to send: the pulse, then what the player hands out.
pub fn master_pulse_at(clock: &mut ClockState, player: &mut SequencePlayer, now: u64) -> (out: Vec<
    Vec<u8>,
>)
    requires
        old(player)@.wf(),
    ensures
        (Routed { clock: final(clock)@, player: final(player)@, out: batch_view(out@) })
            == master_pulsed(old(clock)@, old(player)@, now),
        final(player)@.wf(),
{
    let pulse: [u8; 1] = [MIDI_CLOCK];
    clock.handle_midi_message_at(pulse.as_slice(), now);
    let mut events: Vec<Vec<u8>> = player.tick(clock.get_clock_count());
    let mut first: Vec<u8> = Vec::new();
    first.push(MIDI_CLOCK);
    let ghost handed = batch_view(events@);
    events.insert(0, first);
    assert(batch_view(events@) =~= seq![seq![MIDI_CLOCK]] + handed);
    events
}

/// Takes a pulse of the built-in clock, timed by the monotonic clock.
pub fn master_pulse(clock: &mut ClockState, player: &mut SequencePlayer) -> (out: Vec<Vec<u8>>)
    requires
        old(player)@.wf(),
    ensures
        exists|now: u64|
            (Routed { clock: final(clock)@, player: final(player)@, out: batch_view(out@) })
                == #[trigger] master_pulsed(old(clock)@, old(player)@, now),
        final(player)@.wf(),
{
    let now: u64 = clock.now();
    master_pulse_at(clock, player, now)
}

/// Takes a press of the play button. Returns the messages to send.
pub fn press_play(clock: &mut ClockState, player: &mut SequencePlayer, master_mode: bool) -> (out:
    Vec<Vec<u8>>)
    requires
        old(player)@.wf(),
    ensures
        (Routed { clock: final(clock)@, player: final(player)@, out: batch_view(out@) })
            == play_pressed(old(clock)@, old(player)@, master_mode),
        final(player)@.wf(),
{
    let was_running: bool = clock.is_running();
    let mut out: Vec<Vec<u8>> = Vec::new();
    if was_running {
        out.push(single(MIDI_STOP));
    }
    out.push(single(MIDI_START));
    if master_mode {
        if was_running {
            let stop: [u8; 1] = [MIDI_STOP];
            clock.handle_midi_message_at(stop.as_slice(), 0);
        }
        let start: [u8; 1] = [MIDI_START];
        clock.handle_midi_message_at(start.as_slice(), 0);
        player.reset();
    }
    assert(batch_view(out@) =~= play_pressed(old(clock)@, old(player)@, master_mode).out);
    out
}

/// Takes a press of the stop button: a STOP goes out, and where the
/// built-in clock is master the transport takes it in. Returns the
/// messages to send.
pub fn press_stop(clock: &mut ClockState, master_mode: bool) -> (out: Vec<Vec<u8>>)
    ensures
        batch_view(out@) == seq![seq![MIDI_STOP]],
        final(clock)@ == (if master_mode {
            after_transport(old(clock)@, MIDI_STOP)
        } else {
            old(clock)@
        }),
{
    let mut out: Vec<Vec<u8>> = Vec::new();
    out.push(single(MIDI_STOP));
    if master_mode {
        let stop: [u8; 1] = [MIDI_STOP];
        clock.handle_midi_message_at(stop.as_slice(), 0);
    }
    assert(batch_view(out@) =~= seq![seq![MIDI_STOP]]);
    out
}

/// Makes the built-in clock master: the transport takes in a STOP, so
/// that pulses from outside no longer start it.
pub fn enter_master_mode(clock: &mut ClockState)
    ensures
        final(clock)@ == after_transport(old(clock)@, MIDI_STOP),
        !final(clock)@.running,
        final(clock)@.seen_transport,
{
    let stop: [u8; 1] = [MIDI_STOP];
    clock.handle_midi_message_at(stop.as_slice(), 0);
}

/// Computes [`pulse_deadline`].
pub fn pulse_deadline_nanos(pulse_index: u64, bpm: u64) -> (deadline: u128)
    requires
        bpm > 0,
    ensures
        deadline == pulse_deadline(pulse_index as nat, bpm as nat),
        deadline <= pulse_index * 60_000_000_000,
{
    let ticks: u128 = pulse_index as u128;
    let rate: u128 = bpm as u128;
    assert(ticks * 60_000_000_000 <= 0xFFFF_FFFF_FFFF_FFFF * 60_000_000_000) by (nonlinear_arith)
        requires
            ticks <= 0xFFFF_FFFF_FFFF_FFFF,
    ;
    (ticks * 60_000_000_000) / (rate * 24)
}

/// Tempo of the built-in clock, in beats per minute.
pub const MASTER_BPM: u64 = 120;

/// The built-in clock: whether it is sending pulses, and how many it has
/// sent since it last began to.
#[derive(Debug, Clone, Copy, PartialEq, Eq, Structural)]
pub struct Generator {
    pub running: bool,
    pub pulse_index: u64,
}

/// What the built-in clock is to do next.
#[derive(Debug, Clone, Copy, PartialEq, Eq, Structural)]
pub enum GeneratorStep {
    /// Send a pulse now, then wait until `deadline` nanoseconds after the
    /// first pulse of this run. `restarted` says that this pulse is the
    /// first of a run, whose time the deadlines count from.
    Pulse { restarted: bool, deadline: u128 },
    /// Send nothing and look again shortly. `stopped` says that a run has
    /// just ended.
    Idle { stopped: bool },
}

impl Generator {
    /// The generator and its next step: while the built-in clock is master
    /// and the transport runs, one more pulse of the run (the first of a new
    /// run, if none was under way); else nothing, and the run is over.
    pub open spec fn stepped(self, master_mode: bool, transport_running: bool) -> (
        Generator,
        GeneratorStep,
    ) {
        if master_mode && transport_running {
            let sent = if self.running {
                self.pulse_index + 1
            } else {
                1
            };
            (
                Generator { running: true, pulse_index: sent as u64 },
                GeneratorStep::Pulse {
                    restarted: !self.running,
                    deadline: pulse_deadline(sent as nat, MASTER_BPM as nat) as u128,
                },
            )
        } else {
            (Generator { running: false, pulse_index: self.pulse_index }, GeneratorStep::Idle {
                stopped: self.running,
            })
        }
    }

    /// A generator at rest.
    pub fn new() -> (generator: Self)
        ensures
            generator == (Generator { running: false, pulse_index: 0 }),
    {
        Generator { running: false, pulse_index: 0 }
    }

    /// Decides what the built-in clock does next.
    pub fn step(&mut self, master_mode: bool, transport_running: bool) -> (next: GeneratorStep)
        requires
            old(self).pulse_index < u64::MAX,
        ensures
            (*final(self), next) == old(self).stepped(master_mode, transport_running),
    {
        if master_mode && transport_running {
            let restarted: bool = !self.running;
            if restarted {
                self.running = true;
                self.pulse_index = 0;
            }
            self.pulse_index = self.pulse_index + 1;
            GeneratorStep::Pulse {
                restarted,
                deadline: pulse_deadline_nanos(self.pulse_index, MASTER_BPM),
            }
        } else {
            let stopped: bool = self.running;
            self.running = false;
            GeneratorStep::Idle { stopped }
        }
    }
}

/// No messages.
fn no_messages() -> (out: Vec<Vec<u8>>)
    ensures
        batch_view(out@) == Seq::<Seq<u8>>::empty(),
{
    let out: Vec<Vec<u8>> = Vec::new();
    assert(batch_view(out@) =~= Seq::<Seq<u8>>::empty());
    out
}

/// The message of one byte.
fn single(byte: u8) -> (message: Vec<u8>)
    ensures
        message@ == seq![byte],
{
    let mut message: Vec<u8> = Vec::new();
    message.push(byte);
    assert(message@ =~= seq![byte]);
    message
}

} // verus!
