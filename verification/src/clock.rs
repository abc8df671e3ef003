//! Transport state from a stream of MIDI real-time messages: running or
//! stopped, pulses since the last start, and a rolling tempo estimate.

use crate::midi::position_of;
use crate::midi::bar_beat;
use crate::midi::MIDI_CLOCK;
use crate::midi::MIDI_CONTINUE;
use crate::midi::MIDI_START;
use crate::midi::MIDI_STOP;
use std::time::Instant;
use vstd::prelude::*;

verus! {

/// Pulses that the tempo estimate looks back over: one bar.
pub const BPM_WINDOW_CLOCKS: usize = 96;

/// Hundredths of a beat per minute that one pulse per nanosecond comes to:
/// 60 seconds of 10^9 nanoseconds, times 100, over 24 pulses per beat.
pub const BPM_X100_PER_PULSE_PER_NANO: u64 = 250_000_000_000;

/// `history` after the pulse at `time`: the newest timestamp joins at the
/// end, and the oldest leaves once the window is full.
pub open spec fn pushed(history: Seq<u64>, time: u64) -> Seq<u64> {
    if history.len() < 96 {
        history.push(time)
    } else {
        history.drop_first().push(time)
    }
}

/// The tempo, in hundredths of a beat per minute, of `samples` pulses that
/// span `elapsed_nanos` nanoseconds: `samples - 1` pulse intervals of a 24th
/// of a beat each, over the elapsed minutes, rounded down.
pub open spec fn bpm_x100(samples: nat, elapsed_nanos: nat) -> nat {
    (((samples - 1) * 250_000_000_000) / (elapsed_nanos as int)) as nat
}

/// The estimate after a pulse at `now`, where `history` already holds that
/// pulse: taken over the whole window if it holds two pulses or more and
/// time has passed since the oldest of them, else the previous estimate.
pub open spec fn estimate(history: Seq<u64>, now: u64, previous: nat) -> nat {
    if history.len() >= 2 && now > history[0] {
        bpm_x100(history.len(), (now - history[0]) as nat)
    } else {
        previous
    }
}

/// The count after one more pulse; it wraps at the end of 64 bits.
pub open spec fn next_count(count: u64) -> u64 {
    if count == u64::MAX {
        0
    } else {
        (count + 1) as u64
    }
}

/// Ring buffer of the timestamps, in nanoseconds, of the latest pulses.
pub struct ClockTimeBuffer {
    times: [Option<u64>; 96],
    index: usize,
    count: usize,
}

impl ClockTimeBuffer {
    #[verifier::type_invariant]
    spec fn well_formed(self) -> bool {
        &&& self.index < 96
        &&& self.count <= 96
        &&& self.count < 96 ==> self.index == self.count
        &&& forall|i: int| 0 <= i < 96 ==> ((#[trigger] self.times@[i]) is Some <==> i < self.count)
    }

    /// The slot of the oldest timestamp.
    spec fn oldest_slot(self) -> int {
        if self.count < 96 {
            0
        } else {
            self.index as int
        }
    }

    /// An empty buffer.
    pub fn new() -> (buffer: Self)
        ensures
            buffer@ == Seq::<u64>::empty(),
    {
        let buffer = ClockTimeBuffer { times: [None;96], index: 0, count: 0 };
        assert(buffer@ =~= Seq::<u64>::empty());
        buffer
    }

    /// Adds a timestamp. Returns the timestamp that left the window, if the
    /// window was full, and the number of timestamps now held.
    pub fn push(&mut self, time: u64) -> (out: (Option<u64>, usize))
        ensures
            final(self)@ == pushed(old(self)@, time),
            out.0 == (if old(self)@.len() == 96 {
                Some(old(self)@[0])
            } else {
                None
            }),
            out.1 == final(self)@.len(),
            1 <= out.1 <= 96,
    {
        proof {
            use_type_invariant(&*self);
        }
        let ghost before = *self;
        let oldest: Option<u64> = self.times[self.index];
        let mut times: [Option<u64>; 96] = self.times;
        times[self.index] = Some(time);
        let index: usize = (self.index + 1) % BPM_WINDOW_CLOCKS;
        let count: usize = if self.count < BPM_WINDOW_CLOCKS {
            self.count + 1
        } else {
            self.count
        };
        *self = ClockTimeBuffer { times, index, count };
        proof {
            let after = *self;
            assert(after@.len() == pushed(before@, time).len());
            assert forall|i: int| 0 <= i < after@.len() implies after@[i] == pushed(before@, time)[i] by {
                if before.count < 96 {
                    if i < before.count {
                        assert(after.times@[i] == before.times@[i]);
                    }
                } else {
                    let slot = (after.oldest_slot() + i) % 96;
                    if i < 95 {
                        assert(slot == (before.oldest_slot() + i + 1) % 96);
                        assert(slot != before.index);
                        assert(after.times@[slot] == before.times@[slot]);
                    } else {
                        assert(slot == before.index);
                    }
                }
            }
            assert(after@ =~= pushed(before@, time));
        }
        (oldest, count)
    }

    /// The oldest timestamp held and the number of timestamps held, if any.
    pub fn get_oldest(&self) -> (out: Option<(u64, usize)>)
        ensures
            out == (if self@.len() == 0 {
                None
            } else {
                Some((self@[0], self@.len() as usize))
            }),
            self@.len() <= 96,
    {
        proof {
            use_type_invariant(self);
        }
        if self.count == 0 {
            return None;
        }
        let slot: usize = if self.count < BPM_WINDOW_CLOCKS {
            0
        } else {
            self.index
        };
        match self.times[slot] {
            Some(time) => Some((time, self.count)),
            None => None,
        }
    }

    /// Forgets every timestamp.
    pub fn clear(&mut self)
        ensures
            final(self)@ == Seq::<u64>::empty(),
    {
        *self = ClockTimeBuffer { times: [None;96], index: 0, count: 0 };
        assert(self@ =~= Seq::<u64>::empty());
    }
}

impl View for ClockTimeBuffer {
    type V = Seq<u64>;

    /// The timestamps held, oldest first.
    closed spec fn view(&self) -> Seq<u64> {
        Seq::new(
            self.count as nat,
            |i: int| self.times@[(self.oldest_slot() + i) % 96]->0,
        )
    }
}

impl Default for ClockTimeBuffer {
    fn default() -> (buffer: Self)
        ensures
            buffer@ == Seq::<u64>::empty(),
    {
        ClockTimeBuffer::new()
    }
}

/// The mathematical content of a [`ClockState`].
pub struct ClockModel {
    /// Whether the transport is running.
    pub running: bool,
    /// Whether a START, CONTINUE or STOP has ever been seen.
    pub seen_transport: bool,
    /// Pulses counted since the last START.
    pub pulse_count: u64,
    /// The tempo estimate, in hundredths of a beat per minute.
    pub bpm_x100: nat,
    /// Timestamps of the latest pulses, oldest first, at most a bar of them.
    pub history: Seq<u64>,
}

impl ClockModel {
    /// The state before any message.
    pub open spec fn initial() -> ClockModel {
        ClockModel {
            running: false,
            seen_transport: false,
            pulse_count: 0,
            bpm_x100: 0,
            history: Seq::empty(),
        }
    }

    /// Whether the state can come about: the window holds at most a bar.
    pub open spec fn valid(self) -> bool {
        self.history.len() <= 96
    }

    /// The state after a clock pulse at `now`.
    ///
    /// Until a transport message has been seen, a pulse starts the transport.
    /// The pulse is counted only while running; the tempo estimate follows
    /// every pulse.
    pub open spec fn after_pulse(self, now: u64) -> ClockModel {
        let running = self.running || !self.seen_transport;
        let history = pushed(self.history, now);
        ClockModel {
            running,
            seen_transport: self.seen_transport,
            pulse_count: if running {
                next_count(self.pulse_count)
            } else {
                self.pulse_count
            },
            bpm_x100: estimate(history, now, self.bpm_x100),
            history,
        }
    }

    /// The state after `message`, received at `now`. Only the first byte
    /// counts; an empty message and any byte but the four below change nothing.
    pub open spec fn after_message(self, message: Seq<u8>, now: u64) -> ClockModel {
        if message.len() == 0 {
            self
        } else if message[0] == MIDI_START {
            ClockModel {
                running: true,
                seen_transport: true,
                pulse_count: 0,
                bpm_x100: 0,
                history: Seq::empty(),
            }
        } else if message[0] == MIDI_CONTINUE {
            ClockModel { running: true, seen_transport: true, ..self }
        } else if message[0] == MIDI_STOP {
            ClockModel { running: false, seen_transport: true, ..self }
        } else if message[0] == MIDI_CLOCK {
            self.after_pulse(now)
        } else {
            self
        }
    }
}

/// A message with the time it was received at.
pub struct TimedMessage {
    pub bytes: Seq<u8>,
    pub time: u64,
}

/// Whether `message` is a START.
pub open spec fn is_start(message: Seq<u8>) -> bool {
    message.len() > 0 && message[0] == MIDI_START
}

/// Whether `message` is a STOP.
pub open spec fn is_stop(message: Seq<u8>) -> bool {
    message.len() > 0 && message[0] == MIDI_STOP
}

/// Whether `message` is a clock pulse.
pub open spec fn is_pulse(message: Seq<u8>) -> bool {
    message.len() > 0 && message[0] == MIDI_CLOCK
}

impl ClockModel {
    /// The state after each of `messages` in turn.
    pub open spec fn after_messages(self, messages: Seq<TimedMessage>) -> ClockModel
        decreases messages.len(),
    {
        if messages.len() == 0 {
            self
        } else {
            self.after_messages(messages.drop_last()).after_message(
                messages.last().bytes,
                messages.last().time,
            )
        }
    }
}

/// One message moves the pulse count in one of three ways: a START sets it
/// to zero, a pulse taken while running adds one (wrapping past the end of 64
/// bits), and everything else leaves it alone.
pub proof fn lemma_count_step(state: ClockModel, message: Seq<u8>, now: u64)
    ensures
        ({
            let after = state.after_message(message, now);
            &&& is_start(message) ==> after.pulse_count == 0
            &&& is_pulse(message) && after.running ==> after.pulse_count == next_count(
                state.pulse_count,
            )
            &&& !is_start(message) && !(is_pulse(message) && after.running) ==> after.pulse_count
                == state.pulse_count
        }),
{
}

/// Short of the end of 64 bits, the pulse count goes down only on a START.
pub proof fn lemma_count_falls_only_on_start(state: ClockModel, message: Seq<u8>, now: u64)
    requires
        state.pulse_count < u64::MAX,
        state.after_message(message, now).pulse_count < state.pulse_count,
    ensures
        is_start(message),
        state.after_message(message, now).pulse_count == 0,
{
}

/// Over messages without a START, and short of the end of 64 bits, the
/// pulse count never goes down, and it grows by at most one per message.
pub proof fn lemma_count_monotonic(state: ClockModel, messages: Seq<TimedMessage>)
    requires
        forall|i: int| 0 <= i < messages.len() ==> !is_start(#[trigger] messages[i].bytes),
        state.pulse_count + messages.len() <= u64::MAX,
    ensures
        state.pulse_count <= state.after_messages(messages).pulse_count <= state.pulse_count
            + messages.len(),
    decreases messages.len(),
{
    if messages.len() > 0 {
        let earlier = messages.drop_last();
        assert forall|i: int| 0 <= i < earlier.len() implies !is_start(
            #[trigger] earlier[i].bytes,
        ) by {
            assert(earlier[i] == messages[i]);
        }
        lemma_count_monotonic(state, earlier);
        assert(!is_start(messages[messages.len() - 1].bytes));
    }
}

/// While running, and short of the end of 64 bits, every pulse is counted.
pub proof fn lemma_running_counts(state: ClockModel, now: u64)
    requires
        state.running,
        state.pulse_count < u64::MAX,
    ensures
        state.after_pulse(now).pulse_count == state.pulse_count + 1,
        state.after_pulse(now).running,
{
}

/// After a STOP, pulses no longer advance the count, but each of them
/// still enters the window and updates the tempo estimate as it would
/// while running.
pub proof fn lemma_stopped_pulse(state: ClockModel, stop: Seq<u8>, at: u64, now: u64)
    requires
        is_stop(stop),
    ensures
        ({
            let stopped = state.after_message(stop, at);
            let after = stopped.after_pulse(now);
            &&& !stopped.running
            &&& stopped.pulse_count == state.pulse_count
            &&& stopped.history == state.history
            &&& !after.running
            &&& after.pulse_count == state.pulse_count
            &&& after.history == pushed(state.history, now)
            &&& after.bpm_x100 == estimate(pushed(state.history, now), now, state.bpm_x100)
        }),
{
}

/// Stopped for good: once a transport message has been seen and the
/// transport is not running, any run of pulses leaves the count where it is.
pub proof fn lemma_stopped_holds(state: ClockModel, pulses: Seq<TimedMessage>)
    requires
        state.seen_transport,
        !state.running,
        forall|i: int| 0 <= i < pulses.len() ==> is_pulse(#[trigger] pulses[i].bytes),
    ensures
        state.after_messages(pulses).pulse_count == state.pulse_count,
        !state.after_messages(pulses).running,
        state.after_messages(pulses).seen_transport,
    decreases pulses.len(),
{
    if pulses.len() > 0 {
        let earlier = pulses.drop_last();
        assert forall|i: int| 0 <= i < earlier.len() implies is_pulse(#[trigger] earlier[i].bytes) by {
            assert(earlier[i] == pulses[i]);
        }
        lemma_stopped_holds(state, earlier);
        assert(is_pulse(pulses[pulses.len() - 1].bytes));
    }
}

/// The window and the tempo estimate after a pulse do not depend on
/// whether the transport runs.
pub proof fn lemma_tempo_ignores_transport(a: ClockModel, b: ClockModel, now: u64)
    requires
        a.history == b.history,
        a.bpm_x100 == b.bpm_x100,
    ensures
        a.after_pulse(now).history == b.after_pulse(now).history,
        a.after_pulse(now).bpm_x100 == b.after_pulse(now).bpm_x100,
{
}

/// Pulses at a steady interval give the tempo of that interval, however
/// many of them the window holds: 250 * 10^9 hundredths of a beat per
/// minute, over the nanoseconds between two pulses, rounded down. At
/// 20 833 000 nanoseconds that is 120.00.
pub proof fn lemma_steady_tempo(samples: nat, interval: nat)
    requires
        samples >= 2,
        interval > 0,
    ensures
        bpm_x100(samples, ((samples - 1) * interval) as nat) == 250_000_000_000nat / interval,
        bpm_x100(samples, ((samples - 1) * 20_833_000) as nat) == 12_000,
{
    vstd::arithmetic::div_mod::lemma_div_multiples_vanish_quotient(
        samples - 1,
        250_000_000_000,
        interval as int,
    );
    vstd::arithmetic::div_mod::lemma_div_multiples_vanish_quotient(
        samples - 1,
        250_000_000_000,
        20_833_000,
    );
}

/// Once the pulses in the window and the newest pulse lie a steady
/// interval apart, the estimate after the newest pulse is the tempo of that
/// interval.
pub proof fn lemma_steady_window(state: ClockModel, now: u64, interval: nat)
    requires
        state.valid(),
        interval > 0,
        pushed(state.history, now).len() >= 2,
        now - pushed(state.history, now)[0] == (pushed(state.history, now).len() - 1) * interval,
    ensures
        state.after_pulse(now).bpm_x100 == 250_000_000_000nat / interval,
{
    let window = pushed(state.history, now);
    assert((window.len() - 1) * interval > 0) by (nonlinear_arith)
        requires
            window.len() >= 2,
            interval > 0,
    ;
    lemma_steady_tempo(window.len(), interval);
}

/// The window never grows past one bar.
pub proof fn lemma_window_bounded(state: ClockModel, message: Seq<u8>, now: u64)
    requires
        state.valid(),
    ensures
        state.after_message(message, now).valid(),
{
}

/// The monotonic clock's reading, carried through unread.
#[verifier::external_type_specification]
#[verifier::external_body]
pub struct ExInstant(Instant);

/// Reads the monotonic clock (`std::time::Instant::now`).
///
/// Trusted, with nothing claimed of the reading.
#[verifier::external_body]
fn clock_origin() -> Instant {
    Instant::now()
}

/// Nanoseconds of the monotonic clock since `origin`
/// (`std::time::Instant::elapsed`), cut to 64 bits.
///
/// Trusted, with nothing claimed of the number.
#[verifier::external_body]
fn nanos_since(origin: &Instant) -> u64 {
    origin.elapsed().as_nanos() as u64
}

/// Transport state, fed one message at a time.
pub struct ClockState {
    running: bool,
    seen_transport: bool,
    clock_count: u64,
    bpm_x100: u64,
    clock_times: ClockTimeBuffer,
    origin: Instant,
}

impl View for ClockState {
    type V = ClockModel;

    closed spec fn view(&self) -> ClockModel {
        ClockModel {
            running: self.running,
            seen_transport: self.seen_transport,
            pulse_count: self.clock_count,
            bpm_x100: self.bpm_x100 as nat,
            history: self.clock_times@,
        }
    }
}

impl ClockState {
    /// A stopped transport at position zero that has seen no message.
    pub fn new() -> (state: Self)
        ensures
            state@ == ClockModel::initial(),
            state@.valid(),
    {
        ClockState {
            running: false,
            seen_transport: false,
            clock_count: 0,
            bpm_x100: 0,
            clock_times: ClockTimeBuffer::new(),
            origin: clock_origin(),
        }
    }

    /// Whether the transport is running.
    pub fn is_running(&self) -> (running: bool)
        ensures
            running == self@.running,
    {
        self.running
    }

    /// Pulses counted since the last START.
    pub fn get_clock_count(&self) -> (count: u64)
        ensures
            count == self@.pulse_count,
    {
        self.clock_count
    }

    /// The bar and the beat within it, both counted from one.
    pub fn get_position(&self) -> (out: (u64, u64))
        ensures
            (out.0 as nat, out.1 as nat) == bar_beat(self@.pulse_count as nat),
    {
        position_of(self.clock_count)
    }

    /// The tempo estimate, in hundredths of a beat per minute; zero until
    /// two pulses have been timed.
    pub fn get_bpm_x100(&self) -> (bpm: u64)
        ensures
            bpm as nat == self@.bpm_x100,
    {
        self.bpm_x100
    }

    /// Takes in `message`, timed by the monotonic clock.
    ///
    /// The new state is that of [`ClockState::handle_midi_message_at`] for
    /// the time read, whatever that time is.
    pub fn handle_midi_message(&mut self, message: &[u8])
        ensures
            exists|now: u64| final(self)@ == #[trigger] old(self)@.after_message(message@, now),
            final(self)@.valid(),
    {
        let now: u64 = self.now();
        self.handle_midi_message_at(message, now);
    }

    /// The monotonic clock's reading, in nanoseconds since this state was
    /// made.
    pub(crate) fn now(&self) -> u64 {
        nanos_since(&self.origin)
    }

    /// Takes in `message`, received at `now` nanoseconds.
    pub fn handle_midi_message_at(&mut self, message: &[u8], now: u64)
        ensures
            final(self)@ == old(self)@.after_message(message@, now),
            final(self)@.valid(),
    {
        proof {
            use_type_invariant(&self.clock_times);
        }
        if message.len() == 0 {
            return ;
        }
        let first: u8 = message[0];
        if first == MIDI_START {
            self.seen_transport = true;
            self.running = true;
            self.clock_count = 0;
            self.bpm_x100 = 0;
            self.clock_times.clear();
        } else if first == MIDI_CONTINUE {
            self.seen_transport = true;
            self.running = true;
        } else if first == MIDI_STOP {
            self.seen_transport = true;
            self.running = false;
        } else if first == MIDI_CLOCK {
            if !self.seen_transport {
                self.running = true;
            }
            self.clock_times.push(now);
            match self.clock_times.get_oldest() {
                Some((oldest_time, sample_count)) => {
                    if sample_count > 1 && now > oldest_time {
                        let elapsed: u64 = now - oldest_time;
                        let pulses: u64 = (sample_count - 1) as u64;
                        assert(pulses * 250_000_000_000 <= 95 * 250_000_000_000) by (nonlinear_arith)
                            requires
                                pulses <= 95,
                        ;
                        self.bpm_x100 = (pulses * BPM_X100_PER_PULSE_PER_NANO) / elapsed;
                    }
                },
                None => {},
            }
            if self.running {
                self.clock_count = self.clock_count.wrapping_add(1);
            }
        }
    }
}

} // verus!
