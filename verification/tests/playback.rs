use midi_looper::playback::Loop;
use midi_looper::playback::LoopEvent;
use midi_looper::playback::Sequence;
use midi_looper::playback::SequenceEntry;
use midi_looper::playback::SequencePlayer;

/// A one-bar loop (96 pulses) with two notes.
fn make_test_loop() -> Loop {
    Loop {
        name: "test".to_string(),
        length_clocks: 96,
        events: vec![
            LoopEvent { clock_position: 0, channel: 0, message: vec![0x90, 60, 100] },
            LoopEvent { clock_position: 24, channel: 0, message: vec![0x80, 60, 0] },
            LoopEvent { clock_position: 48, channel: 0, message: vec![0x90, 64, 100] },
            LoopEvent { clock_position: 72, channel: 0, message: vec![0x80, 64, 0] },
        ],
    }
}

fn make_test_loop_named(name: &str, note: u8) -> Loop {
    Loop {
        name: name.to_string(),
        length_clocks: 96,
        events: vec![
            LoopEvent { clock_position: 0, channel: 0, message: vec![0x90, note, 100] },
            LoopEvent { clock_position: 48, channel: 0, message: vec![0x80, note, 0] },
        ],
    }
}

#[test]
fn test_set_channel() {
    let mut loop_data = make_test_loop();
    loop_data.set_channel(5);

    for event in &loop_data.events {
        assert_eq!(event.channel, 5);
        assert_eq!(event.message[0] & 0x0F, 5);
    }
}

#[test]
fn test_sequence_not_playing_returns_empty() {
    let mut player = SequencePlayer::new();
    player.load(Sequence {
        entries: vec![SequenceEntry { loop_data: make_test_loop(), repeat_count: 2 }],
    });
    assert!(player.tick(0).is_empty());
}

#[test]
fn test_sequence_no_sequence_returns_empty() {
    let mut player = SequencePlayer::new();
    player.playing = true;
    assert!(player.tick(0).is_empty());
}

#[test]
fn test_sequence_plays_first_entry() {
    let mut player = SequencePlayer::new();
    player.load(Sequence {
        entries: vec![
            SequenceEntry { loop_data: make_test_loop_named("loop1", 60), repeat_count: 2 },
            SequenceEntry { loop_data: make_test_loop_named("loop2", 64), repeat_count: 2 },
        ],
    });
    player.start();

    let events = player.tick(0);
    assert_eq!(events.len(), 1);
    assert_eq!(events[0], vec![0x90, 60, 100]);
}

#[test]
fn test_sequence_repeats_before_advancing() {
    let mut player = SequencePlayer::new();
    player.load(Sequence {
        entries: vec![
            SequenceEntry { loop_data: make_test_loop_named("loop1", 60), repeat_count: 2 },
            SequenceEntry { loop_data: make_test_loop_named("loop2", 64), repeat_count: 2 },
        ],
    });
    player.start();

    player.tick(0);
    player.tick(48);

    let events = player.tick(96);
    assert_eq!(events.len(), 1);
    assert_eq!(events[0], vec![0x90, 60, 100]);
}

#[test]
fn test_sequence_advances_after_repeat_count() {
    let mut player = SequencePlayer::new();
    player.load(Sequence {
        entries: vec![
            SequenceEntry { loop_data: make_test_loop_named("loop1", 60), repeat_count: 2 },
            SequenceEntry { loop_data: make_test_loop_named("loop2", 64), repeat_count: 2 },
        ],
    });
    player.start();

    player.tick(0);
    player.tick(48);
    player.tick(96);
    player.tick(144);

    let events = player.tick(192);
    assert_eq!(events.len(), 1);
    assert_eq!(events[0], vec![0x90, 64, 100]);
}

#[test]
fn test_sequence_cycles_back_to_first() {
    let mut player = SequencePlayer::new();
    player.load(Sequence {
        entries: vec![
            SequenceEntry { loop_data: make_test_loop_named("loop1", 60), repeat_count: 1 },
            SequenceEntry { loop_data: make_test_loop_named("loop2", 64), repeat_count: 1 },
        ],
    });
    player.start();

    player.tick(0);
    player.tick(48);

    let events = player.tick(96);
    assert_eq!(events[0], vec![0x90, 64, 100]);
    player.tick(144);

    let events = player.tick(192);
    assert_eq!(events.len(), 1);
    assert_eq!(events[0], vec![0x90, 60, 100]);
}

#[test]
fn test_sequence_reset() {
    let mut player = SequencePlayer::new();
    player.load(Sequence {
        entries: vec![
            SequenceEntry { loop_data: make_test_loop_named("loop1", 60), repeat_count: 1 },
            SequenceEntry { loop_data: make_test_loop_named("loop2", 64), repeat_count: 1 },
        ],
    });
    player.start();

    player.tick(0);
    player.tick(96);

    player.reset();

    let events = player.tick(0);
    assert_eq!(events.len(), 1);
    assert_eq!(events[0], vec![0x90, 60, 100]);
}

#[test]
fn test_sequence_current_loop_name() {
    let mut player = SequencePlayer::new();
    player.load(Sequence {
        entries: vec![
            SequenceEntry { loop_data: make_test_loop_named("First Loop", 60), repeat_count: 1 },
            SequenceEntry { loop_data: make_test_loop_named("Second Loop", 64), repeat_count: 1 },
        ],
    });
    player.start();

    assert_eq!(player.current_loop_name(), Some("First Loop"));

    player.tick(0);
    player.tick(96);

    assert_eq!(player.current_loop_name(), Some("Second Loop"));
}

#[test]
fn test_sequence_current_state() {
    let mut player = SequencePlayer::new();
    player.load(Sequence {
        entries: vec![SequenceEntry { loop_data: make_test_loop_named("test", 60), repeat_count: 3 }],
    });
    player.start();

    assert_eq!(player.current_state(), Some((0, 1, 3)));

    player.tick(0);
    player.tick(96);

    assert_eq!(player.current_state(), Some((0, 2, 3)));

    player.tick(192);
    assert_eq!(player.current_state(), Some((0, 3, 3)));
}

#[test]
fn test_sequence_emits_events_at_correct_time() {
    let mut player = SequencePlayer::new();
    player.load(Sequence {
        entries: vec![SequenceEntry { loop_data: make_test_loop(), repeat_count: 1 }],
    });
    player.start();

    let events = player.tick(0);
    assert_eq!(events.len(), 1);
    assert_eq!(events[0], vec![0x90, 60, 100]);

    for clock in 1..24 {
        assert!(player.tick(clock).is_empty());
    }

    let events = player.tick(24);
    assert_eq!(events.len(), 1);
    assert_eq!(events[0], vec![0x80, 60, 0]);
}

#[test]
fn test_sequence_multiple_events_same_clock() {
    let mut player = SequencePlayer::new();
    player.load(Sequence {
        entries: vec![SequenceEntry {
            loop_data: Loop {
                name: "chord".to_string(),
                length_clocks: 96,
                events: vec![
                    LoopEvent { clock_position: 0, channel: 0, message: vec![0x90, 60, 100] },
                    LoopEvent { clock_position: 0, channel: 0, message: vec![0x90, 64, 100] },
                    LoopEvent { clock_position: 0, channel: 0, message: vec![0x90, 67, 100] },
                ],
            },
            repeat_count: 1,
        }],
    });
    player.start();

    let events = player.tick(0);
    assert_eq!(events.len(), 3);
}

#[test]
fn test_sequence_empty_entries() {
    let mut player = SequencePlayer::new();
    player.load(Sequence { entries: vec![] });
    player.start();

    assert!(player.tick(0).is_empty());
    assert!(player.tick(96).is_empty());
}

#[test]
fn test_sequence_with_empty_loop() {
    let mut player = SequencePlayer::new();
    player.load(Sequence {
        entries: vec![SequenceEntry {
            loop_data: Loop { name: "empty".to_string(), length_clocks: 96, events: vec![] },
            repeat_count: 2,
        }],
    });
    player.start();

    assert!(player.tick(0).is_empty());
    assert!(player.tick(96).is_empty());
}
