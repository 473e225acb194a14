use loopmachine::waveform_player::{watchdog_tick, LoopBounds, ReadStep, StepCursor, StepEvent};

/// Plays an arrangement whose steps repeat `repeats` times, for at most `limit`
/// loop ends, and lists what each end reports.
fn play(repeats: &[u32], limit: usize) -> Vec<StepEvent> {
    let mut cursor = StepCursor::start(repeats);
    let mut events = Vec::new();
    for _ in 0..limit {
        let (next, event) = cursor.step_end(repeats);
        events.push(event);
        cursor = next;
        if event == StepEvent::ArrangementFinished {
            break;
        }
    }
    events
}

#[test]
fn steps_play_their_repeats_in_order() {
    assert_eq!(
        play(&[2, 1, 3], 20),
        vec![
            StepEvent::StepRepeated(0),
            StepEvent::StepChanged(1),
            StepEvent::StepChanged(2),
            StepEvent::StepRepeated(2),
            StepEvent::StepRepeated(2),
            StepEvent::ArrangementFinished,
        ]
    );
}

#[test]
fn single_step_once_finishes_at_its_first_end() {
    assert_eq!(play(&[1], 5), vec![StepEvent::ArrangementFinished]);
}

#[test]
fn zero_repeats_plays_forever() {
    let events = play(&[1, 0, 1], 50);
    assert_eq!(events.len(), 50);
    assert_eq!(events[0], StepEvent::StepChanged(1));
    assert!(events[1..].iter().all(|e| *e == StepEvent::StepRepeated(1)));
}

#[test]
fn start_takes_the_first_steps_repeats() {
    assert_eq!(StepCursor::start(&[4, 1]), StepCursor { step: 0, plays_left: 4 });
    let (c, e) = StepCursor { step: 0, plays_left: 4 }.step_end(&[4, 1]);
    assert_eq!((c, e), (StepCursor { step: 0, plays_left: 3 }, StepEvent::StepRepeated(0)));
}

#[test]
fn reader_reads_up_to_the_end_without_looping() {
    let off = LoopBounds { a: 10, b: 20, enabled: false };
    assert_eq!(off.read_step(100, 0, 4096), ReadStep::Read(100));
    assert_eq!(off.read_step(100, 90, 4), ReadStep::Read(4));
    assert_eq!(off.read_step(100, 100, 4096), ReadStep::Done);
    assert_eq!(off.read_step(100, 50, 0), ReadStep::Done);
}

#[test]
fn reader_wraps_inside_the_loop() {
    let on = LoopBounds { a: 10, b: 20, enabled: true };
    assert_eq!(on.read_step(100, 0, 4096), ReadStep::Read(20));
    assert_eq!(on.read_step(100, 15, 3), ReadStep::Read(3));
    assert_eq!(on.read_step(100, 20, 4096), ReadStep::JumpTo(10));
    assert_eq!(on.read_step(100, 10, 4096), ReadStep::Read(10));
    // B not after A: no looping in effect.
    let empty = LoopBounds { a: 20, b: 20, enabled: true };
    assert_eq!(empty.read_step(100, 30, 4096), ReadStep::Read(70));
}

#[test]
fn watchdog_fires_on_the_sixty_first_still_frame() {
    let (mut stuck, mut last, mut dead) = (0u32, 7u64, false);
    for frame in 1..=61u32 {
        let next = watchdog_tick(stuck, last, 7);
        stuck = next.0;
        last = next.1;
        dead = next.2;
        assert_eq!(stuck, frame);
        assert_eq!(dead, frame > 60);
    }
    assert!(dead);
    assert_eq!(last, 7);
    assert_eq!(watchdog_tick(stuck, last, 8), (0, 8, false));
}
