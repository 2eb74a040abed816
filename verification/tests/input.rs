use delve::input::{
    char_action, handle_key_event, input_step, is_active, key_action, update_flags, InputStep, Key,
    KeyAction, Movement,
};

#[test]
fn movement_flags_are_single_bits() {
    let all = [
        Movement::Forward,
        Movement::Backward,
        Movement::Left,
        Movement::Right,
        Movement::Up,
        Movement::Down,
        Movement::PitchUp,
        Movement::PitchDown,
        Movement::YawLeft,
        Movement::YawRight,
    ];
    for (i, m) in all.iter().enumerate() {
        assert_eq!(m.flag(), 1u32 << i);
    }
    assert_eq!(Movement::YawRight.flag(), 512);
}

#[test]
fn pressing_and_releasing_toggle_only_that_movement() {
    let flags = update_flags(0, Movement::Forward, true);
    assert_eq!(flags, 1);
    let flags = update_flags(flags, Movement::YawLeft, true);
    assert_eq!(flags, 1 | 256);
    assert!(is_active(flags, Movement::Forward));
    assert!(is_active(flags, Movement::YawLeft));
    assert!(!is_active(flags, Movement::Backward));
    let flags = update_flags(flags, Movement::Forward, false);
    assert_eq!(flags, 256);
    assert!(!is_active(flags, Movement::Forward));
    assert!(is_active(flags, Movement::YawLeft));
}

#[test]
fn keys_map_to_actions() {
    assert_eq!(key_action(Key::Esc), KeyAction::Quit);
    assert_eq!(key_action(Key::Up), KeyAction::Move(Movement::PitchUp));
    assert_eq!(key_action(Key::Down), KeyAction::Move(Movement::PitchDown));
    assert_eq!(key_action(Key::Left), KeyAction::Move(Movement::YawLeft));
    assert_eq!(key_action(Key::Right), KeyAction::Move(Movement::YawRight));
    assert_eq!(key_action(Key::LeftShift), KeyAction::Move(Movement::Up));
    assert_eq!(key_action(Key::LeftControl), KeyAction::Move(Movement::Down));
    assert_eq!(key_action(Key::Other), KeyAction::Ignore);
}

#[test]
fn letters_match_in_either_case() {
    assert_eq!(key_action(Key::Char('q')), KeyAction::Quit);
    assert_eq!(key_action(Key::Char('Q')), KeyAction::Quit);
    assert_eq!(key_action(Key::Char('w')), KeyAction::Move(Movement::Forward));
    assert_eq!(key_action(Key::Char('W')), KeyAction::Move(Movement::Forward));
    assert_eq!(key_action(Key::Char('A')), KeyAction::Move(Movement::Left));
    assert_eq!(key_action(Key::Char('s')), KeyAction::Move(Movement::Backward));
    assert_eq!(key_action(Key::Char('D')), KeyAction::Move(Movement::Right));
    assert_eq!(key_action(Key::Char('x')), KeyAction::Ignore);
    assert_eq!(key_action(Key::Char('é')), KeyAction::Ignore);
}

#[test]
fn char_action_checks_in_order() {
    let s = |x: &str| x.to_string();
    assert_eq!(char_action(&s("w"), &s("q"), &s("w"), &s("a"), &s("s"), &s("d")), KeyAction::Move(Movement::Forward));
    assert_eq!(char_action(&s("q"), &s("q"), &s("w"), &s("a"), &s("s"), &s("d")), KeyAction::Quit);
    assert_eq!(char_action(&s("z"), &s("q"), &s("w"), &s("a"), &s("s"), &s("d")), KeyAction::Ignore);
    assert_eq!(char_action(&s("d"), &s("q"), &s("w"), &s("a"), &s("s"), &s("d")), KeyAction::Move(Movement::Right));
}

#[test]
fn key_events_drive_the_flags() {
    assert_eq!(handle_key_event(0, Some(Key::Char('w')), true), InputStep::Continue(1));
    assert_eq!(handle_key_event(1, Some(Key::Char('w')), false), InputStep::Continue(0));
    assert_eq!(handle_key_event(1, Some(Key::LeftShift), true), InputStep::Continue(1 | 16));
    assert_eq!(handle_key_event(5, Some(Key::Esc), true), InputStep::Stop);
    assert_eq!(handle_key_event(5, Some(Key::Char('q')), false), InputStep::Stop);
    assert_eq!(handle_key_event(5, None, true), InputStep::Continue(5));
    assert_eq!(handle_key_event(5, Some(Key::Other), true), InputStep::Continue(5));
}

#[test]
fn input_loop_stops_on_read_failure_then_on_running_flag() {
    // a failed read ends the loop first, whatever else holds
    assert_eq!(input_step(3, false, false, Some(Key::Char('w')), true), InputStep::Failed);
    assert_eq!(input_step(3, false, true, None, false), InputStep::Failed);
    // a cleared running flag ends it before the key is looked at
    assert_eq!(input_step(3, true, false, Some(Key::Char('w')), true), InputStep::Stop);
    // otherwise the key decides
    assert_eq!(input_step(0, true, true, Some(Key::Char('W')), true), InputStep::Continue(1));
    assert_eq!(input_step(1, true, true, Some(Key::Char('w')), false), InputStep::Continue(0));
    assert_eq!(input_step(7, true, true, Some(Key::Esc), true), InputStep::Stop);
    assert_eq!(input_step(7, true, true, None, true), InputStep::Continue(7));
}
