use midi_looper::clock::ClockState;
use midi_looper::clock::ClockTimeBuffer;
use midi_looper::midi::position_of;
use midi_looper::midi::MIDI_CLOCK;
use midi_looper::midi::MIDI_CONTINUE;
use midi_looper::midi::MIDI_START;
use midi_looper::midi::MIDI_STOP;

/// Nanoseconds between two pulses at 120 beats per minute.
const CLOCK_INTERVAL: u64 = 20_833_000;

fn get_bpm(state: &ClockState) -> f64 {
    state.get_bpm_x100() as f64 / 100.0
}

#[test]
fn test_initial_state() {
    let state = ClockState::new();
    assert!(!state.is_running());
    assert_eq!(state.get_clock_count(), 0);
    assert_eq!(state.get_position(), (1, 1));
    assert_eq!(get_bpm(&state), 0.0);
}

#[test]
fn test_auto_start_on_clock_without_transport() {
    let mut state = ClockState::new();
    assert!(!state.is_running());

    state.handle_midi_message(&[MIDI_CLOCK]);
    assert!(state.is_running());
    assert_eq!(state.get_clock_count(), 1);
}

#[test]
fn test_stop_prevents_auto_start() {
    let mut state = ClockState::new();

    state.handle_midi_message(&[MIDI_START]);
    assert!(state.is_running());

    state.handle_midi_message(&[MIDI_STOP]);
    assert!(!state.is_running());

    state.handle_midi_message(&[MIDI_CLOCK]);
    assert!(!state.is_running());
    assert_eq!(state.get_clock_count(), 0);
}

#[test]
fn test_continue_restarts_after_stop() {
    let mut state = ClockState::new();

    state.handle_midi_message(&[MIDI_START]);
    state.handle_midi_message(&[MIDI_CLOCK]);
    state.handle_midi_message(&[MIDI_STOP]);
    assert!(!state.is_running());

    state.handle_midi_message(&[MIDI_CONTINUE]);
    assert!(state.is_running());

    let count_before = state.get_clock_count();
    state.handle_midi_message(&[MIDI_CLOCK]);
    assert_eq!(state.get_clock_count(), count_before + 1);
}

#[test]
fn test_start_resets_position() {
    let mut state = ClockState::new();

    state.handle_midi_message(&[MIDI_START]);
    for _ in 0..50 {
        state.handle_midi_message(&[MIDI_CLOCK]);
    }
    assert!(state.get_clock_count() > 0);

    state.handle_midi_message(&[MIDI_START]);
    assert_eq!(state.get_clock_count(), 0);
    assert_eq!(state.get_position(), (1, 1));
}

#[test]
fn test_position_calculation() {
    let mut state = ClockState::new();
    state.handle_midi_message(&[MIDI_START]);

    for _ in 0..24 {
        state.handle_midi_message(&[MIDI_CLOCK]);
    }
    assert_eq!(state.get_position(), (1, 2));

    for _ in 0..(96 - 24) {
        state.handle_midi_message(&[MIDI_CLOCK]);
    }
    assert_eq!(state.get_position(), (2, 1));
}

#[test]
fn test_bpm_calculation() {
    let mut state = ClockState::new();
    state.handle_midi_message(&[MIDI_START]);

    let start: u64 = 5_000_000_000;
    for i in 0..100u64 {
        let time = start + CLOCK_INTERVAL * i;
        state.handle_midi_message_at(&[MIDI_CLOCK], time);
    }

    let bpm = get_bpm(&state);
    assert!((bpm - 120.0).abs() < 1.2, "Expected BPM ~120, got {}", bpm);
}

#[test]
fn test_bpm_updates_even_when_stopped() {
    let mut state = ClockState::new();
    state.handle_midi_message(&[MIDI_START]);
    state.handle_midi_message(&[MIDI_STOP]);
    assert!(!state.is_running());

    let start: u64 = 5_000_000_000;
    for i in 0..50u64 {
        let time = start + CLOCK_INTERVAL * i;
        state.handle_midi_message_at(&[MIDI_CLOCK], time);
    }

    let bpm = get_bpm(&state);
    assert!(bpm > 100.0, "BPM should be calculated even when stopped");
    assert_eq!(state.get_clock_count(), 0);
}

#[test]
fn test_empty_message_ignored() {
    let mut state = ClockState::new();
    state.handle_midi_message(&[]);
    assert!(!state.is_running());
    assert_eq!(state.get_clock_count(), 0);
}

#[test]
fn test_unknown_message_ignored() {
    let mut state = ClockState::new();
    state.handle_midi_message(&[0x90, 60, 100]);
    assert!(!state.is_running());
    assert_eq!(state.get_clock_count(), 0);
}

#[test]
fn bar_and_beat_follow_the_pulse_count() {
    assert_eq!(position_of(0), (1, 1));
    assert_eq!(position_of(23), (1, 1));
    assert_eq!(position_of(24), (1, 2));
    assert_eq!(position_of(95), (1, 4));
    assert_eq!(position_of(96), (2, 1));
    assert_eq!(position_of(96 * 7 + 24 * 3 + 5), (8, 4));
    assert_eq!(position_of(u64::MAX), (u64::MAX / 96 + 1, (u64::MAX / 24) % 4 + 1));
}

#[test]
fn bpm_estimate_is_exact_in_hundredths() {
    let mut state = ClockState::new();
    state.handle_midi_message_at(&[MIDI_CLOCK], 1_000);
    // One pulse is no interval yet.
    assert_eq!(state.get_bpm_x100(), 0);
    // Two pulses 20.833 ms apart: 250e9 / 20_833_000, rounded down.
    state.handle_midi_message_at(&[MIDI_CLOCK], 1_000 + CLOCK_INTERVAL);
    assert_eq!(state.get_bpm_x100(), 12_000);
    // A third pulse half a second after the first: 2 * 250e9 / 500e6.
    state.handle_midi_message_at(&[MIDI_CLOCK], 1_000 + 500_000_000);
    assert_eq!(state.get_bpm_x100(), 1_000);
}

#[test]
fn bpm_estimate_spans_one_bar_once_the_window_is_full() {
    let mut state = ClockState::new();
    // 95 slow pulses, one second apart: 60 / 24 = 2.5 beats per minute.
    for i in 0..95u64 {
        state.handle_midi_message_at(&[MIDI_CLOCK], i * 1_000_000_000);
    }
    assert_eq!(state.get_bpm_x100(), 250);
    // From here on a pulse every millisecond. After 96 of them the slow
    // pulses have all left the window: 95 intervals in 95 ms.
    let base: u64 = 94 * 1_000_000_000;
    for i in 1..=96u64 {
        state.handle_midi_message_at(&[MIDI_CLOCK], base + i * 1_000_000);
    }
    assert_eq!(state.get_bpm_x100(), 250_000_000_000 / 1_000_000);
}

#[test]
fn pulse_without_elapsed_time_keeps_the_estimate() {
    let mut state = ClockState::new();
    state.handle_midi_message_at(&[MIDI_CLOCK], 10);
    state.handle_midi_message_at(&[MIDI_CLOCK], 10 + CLOCK_INTERVAL);
    assert_eq!(state.get_bpm_x100(), 12_000);
    // A timestamp at or before the oldest in the window gives no tempo.
    state.handle_midi_message_at(&[MIDI_CLOCK], 10);
    assert_eq!(state.get_bpm_x100(), 12_000);
    state.handle_midi_message_at(&[MIDI_CLOCK], 3);
    assert_eq!(state.get_bpm_x100(), 12_000);
}

#[test]
fn start_clears_the_tempo_and_stop_keeps_it() {
    let mut state = ClockState::new();
    state.handle_midi_message_at(&[MIDI_CLOCK], 0);
    state.handle_midi_message_at(&[MIDI_CLOCK], CLOCK_INTERVAL);
    assert_eq!(state.get_bpm_x100(), 12_000);
    state.handle_midi_message_at(&[MIDI_STOP], 2 * CLOCK_INTERVAL);
    assert_eq!(state.get_bpm_x100(), 12_000);
    assert_eq!(state.get_clock_count(), 2);
    state.handle_midi_message_at(&[MIDI_START], 3 * CLOCK_INTERVAL);
    assert_eq!(state.get_bpm_x100(), 0);
    assert_eq!(state.get_clock_count(), 0);
    // The window is empty again: one pulse gives no estimate.
    state.handle_midi_message_at(&[MIDI_CLOCK], 4 * CLOCK_INTERVAL);
    assert_eq!(state.get_bpm_x100(), 0);
    assert_eq!(state.get_clock_count(), 1);
}

#[test]
fn pulse_count_never_falls_without_a_start() {
    let mut state = ClockState::new();
    let messages: [u8; 8] = [
        MIDI_CLOCK, MIDI_CLOCK, MIDI_STOP, MIDI_CLOCK, MIDI_CONTINUE, MIDI_CLOCK, 0xFE, MIDI_CLOCK,
    ];
    let mut last = state.get_clock_count();
    for (i, byte) in messages.iter().enumerate() {
        state.handle_midi_message_at(&[*byte], i as u64 * CLOCK_INTERVAL);
        assert!(state.get_clock_count() >= last);
        last = state.get_clock_count();
    }
    assert_eq!(last, 4);
    state.handle_midi_message_at(&[MIDI_START], 0);
    assert_eq!(state.get_clock_count(), 0);
}

#[test]
fn only_the_first_byte_of_a_message_counts() {
    let mut state = ClockState::new();
    state.handle_midi_message_at(&[MIDI_START, MIDI_STOP], 0);
    assert!(state.is_running());
    state.handle_midi_message_at(&[MIDI_CLOCK, MIDI_CLOCK, MIDI_CLOCK], 1);
    assert_eq!(state.get_clock_count(), 1);
}

#[test]
fn ring_buffer_hands_back_what_it_evicts() {
    let mut buffer = ClockTimeBuffer::new();
    assert_eq!(buffer.get_oldest(), None);
    for i in 0..96u64 {
        assert_eq!(buffer.push(100 + i), (None, (i + 1) as usize));
        assert_eq!(buffer.get_oldest(), Some((100, (i + 1) as usize)));
    }
    assert_eq!(buffer.push(500), (Some(100), 96));
    assert_eq!(buffer.get_oldest(), Some((101, 96)));
    assert_eq!(buffer.push(501), (Some(101), 96));
    assert_eq!(buffer.get_oldest(), Some((102, 96)));
    buffer.clear();
    assert_eq!(buffer.get_oldest(), None);
    assert_eq!(buffer.push(7), (None, 1));
    assert_eq!(buffer.get_oldest(), Some((7, 1)));
}

#[test]
fn ring_buffer_wraps_more_than_once() {
    let mut buffer = ClockTimeBuffer::default();
    for i in 0..300u64 {
        let (evicted, count) = buffer.push(i);
        if i < 96 {
            assert_eq!(evicted, None);
            assert_eq!(count, (i + 1) as usize);
        } else {
            assert_eq!(evicted, Some(i - 96));
            assert_eq!(count, 96);
        }
    }
    assert_eq!(buffer.get_oldest(), Some((204, 96)));
}
