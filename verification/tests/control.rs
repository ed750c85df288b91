use synthrs::control::{note_frequency, process_event, Action, InputEvent, KeyEventKind, Vec2};
use synthrs::wavetable::Waveform;

fn kinds() -> Vec<KeyEventKind> {
    vec![KeyEventKind::Press, KeyEventKind::Repeat, KeyEventKind::Release]
}

#[test]
fn no_event_asks_for_nothing() {
    assert_eq!(process_event(None), Action::Nothing);
}

#[test]
fn an_event_of_no_interest_asks_for_nothing() {
    assert_eq!(process_event(Some(InputEvent::Other)), Action::Nothing);
}

#[test]
fn capital_q_quits_on_every_kind_of_key_event() {
    for kind in kinds() {
        assert_eq!(process_event(Some(InputEvent::Key('Q', kind))), Action::Quit);
    }
    assert_eq!(
        process_event(Some(InputEvent::Key('q', KeyEventKind::Press))),
        Action::Nothing
    );
}

#[test]
fn the_digits_one_to_four_choose_the_shape() {
    for kind in kinds() {
        assert_eq!(
            process_event(Some(InputEvent::Key('1', kind))),
            Action::ChangeWavetable(Waveform::Sine)
        );
        assert_eq!(
            process_event(Some(InputEvent::Key('2', kind))),
            Action::ChangeWavetable(Waveform::Saw)
        );
        assert_eq!(
            process_event(Some(InputEvent::Key('3', kind))),
            Action::ChangeWavetable(Waveform::Square)
        );
        assert_eq!(
            process_event(Some(InputEvent::Key('4', kind))),
            Action::ChangeWavetable(Waveform::Triangle)
        );
        assert_eq!(process_event(Some(InputEvent::Key('5', kind))), Action::Nothing);
        assert_eq!(process_event(Some(InputEvent::Key('0', kind))), Action::Nothing);
    }
}

#[test]
fn plus_and_minus_step_the_volume() {
    for kind in kinds() {
        assert_eq!(process_event(Some(InputEvent::Key('+', kind))), Action::IncreaseVolume);
        assert_eq!(process_event(Some(InputEvent::Key('-', kind))), Action::DecreaseVolume);
    }
}

#[test]
fn the_note_keys_have_their_frequencies() {
    assert_eq!(note_frequency('a'), Some(26163));
    assert_eq!(note_frequency('s'), Some(29366));
    assert_eq!(note_frequency('d'), Some(32963));
    assert_eq!(note_frequency('f'), Some(34923));
    assert_eq!(note_frequency('g'), None);
    assert_eq!(note_frequency('A'), None);
    assert_eq!(note_frequency('1'), None);
}

#[test]
fn a_pressed_note_key_starts_its_note() {
    assert_eq!(
        process_event(Some(InputEvent::Key('a', KeyEventKind::Press))),
        Action::NoteOn(26163, 'a')
    );
    assert_eq!(
        process_event(Some(InputEvent::Key('s', KeyEventKind::Press))),
        Action::NoteOn(29366, 's')
    );
    assert_eq!(
        process_event(Some(InputEvent::Key('d', KeyEventKind::Press))),
        Action::NoteOn(32963, 'd')
    );
    assert_eq!(
        process_event(Some(InputEvent::Key('f', KeyEventKind::Press))),
        Action::NoteOn(34923, 'f')
    );
}

#[test]
fn a_released_note_key_ends_its_note() {
    for key in ['a', 's', 'd', 'f'] {
        assert_eq!(
            process_event(Some(InputEvent::Key(key, KeyEventKind::Release))),
            Action::NoteOff(key)
        );
    }
}

#[test]
fn a_held_note_key_repeats_nothing() {
    for key in ['a', 's', 'd', 'f'] {
        assert_eq!(
            process_event(Some(InputEvent::Key(key, KeyEventKind::Repeat))),
            Action::Nothing
        );
    }
}

#[test]
fn any_other_key_asks_for_nothing() {
    for kind in kinds() {
        for key in ['g', 'z', 'A', 'S', ' ', '\n', '=', '_', 'é', '音'] {
            assert_eq!(process_event(Some(InputEvent::Key(key, kind))), Action::Nothing);
        }
    }
}

#[test]
fn a_resize_reports_the_new_size() {
    assert_eq!(
        process_event(Some(InputEvent::Resize(80, 24))),
        Action::ChangeWindowSize(Vec2 { x: 80, y: 24 })
    );
    assert_eq!(
        process_event(Some(InputEvent::Resize(0, u16::MAX))),
        Action::ChangeWindowSize(Vec2 { x: 0, y: 65535 })
    );
}
