use raycaster::engine::Raycaster;
use raycaster::player::{Intent, Player};
use raycaster::session::{command_for, pause_after, Command, Key, KeyKind, Phase, Session, FRAME_BUDGET};

#[test]
fn movement_keys_are_bound() {
    assert_eq!(command_for(Key::Char('w')), Command::Act(Intent::Forward));
    assert_eq!(command_for(Key::Up), Command::Act(Intent::Forward));
    assert_eq!(command_for(Key::Char('s')), Command::Act(Intent::Backward));
    assert_eq!(command_for(Key::Down), Command::Act(Intent::Backward));
    assert_eq!(command_for(Key::Char('a')), Command::Act(Intent::StrafeLeft));
    assert_eq!(command_for(Key::Char('d')), Command::Act(Intent::StrafeRight));
    assert_eq!(command_for(Key::Left), Command::Act(Intent::RotateLeft));
    assert_eq!(command_for(Key::Right), Command::Act(Intent::RotateRight));
}

#[test]
fn quit_keys_are_bound() {
    assert_eq!(command_for(Key::Char('q')), Command::Quit);
    assert_eq!(command_for(Key::Esc), Command::Quit);
}

#[test]
fn other_keys_are_unbound() {
    assert_eq!(command_for(Key::Other), Command::Nothing);
    for c in ['W', 'A', 'S', 'D', 'Q', 'x', ' ', '\n', '0', '\u{2580}'] {
        assert_eq!(command_for(Key::Char(c)), Command::Nothing, "{:?}", c);
    }
}

#[test]
fn the_frame_budget_is_sixteen_milliseconds() {
    assert_eq!(FRAME_BUDGET, 16_000_000);
}

#[test]
fn a_fast_frame_sleeps_the_rest() {
    assert_eq!(pause_after(0), 16_000_000);
    assert_eq!(pause_after(1), 15_999_999);
    assert_eq!(pause_after(4_000_000), 12_000_000);
    assert_eq!(pause_after(15_999_999), 1);
}

#[test]
fn a_slow_frame_does_not_sleep() {
    assert_eq!(pause_after(16_000_000), 0);
    assert_eq!(pause_after(16_000_001), 0);
    assert_eq!(pause_after(1_000_000_000), 0);
    assert_eq!(pause_after(u64::MAX as u128 + 5), 0);
    assert_eq!(pause_after(u128::MAX), 0);
}

#[test]
fn a_new_session_runs() {
    let session = Session::new();
    assert_eq!(session.phase(), Phase::Running);
    assert_eq!(session.engine().player(), Raycaster::new().player());
    assert_eq!(session.engine().last_size(), (0, 0));
}

#[test]
fn a_frame_applies_the_gathered_intents() {
    let mut session = Session::new();
    assert_eq!(session.key_event(Key::Char('w'), KeyKind::Press), Phase::Running);
    assert_eq!(session.key_event(Key::Up, KeyKind::Press), Phase::Running);
    assert_eq!(session.key_event(Key::Right, KeyKind::Press), Phase::Running);
    assert_eq!(session.engine().player(), Player { x: 2_000_000, y: 2_000_000, angle: 0 });
    let out = session.frame(20, 10).unwrap();
    assert!(out.starts_with(b"\x1b[2J\x1b[H"));
    assert_eq!(session.engine().player(), Player { x: 2_100_000, y: 2_000_000, angle: 30_000 });
    assert_eq!(session.engine().last_size(), (20, 10));
}

#[test]
fn intents_are_spent_by_their_frame() {
    let mut session = Session::new();
    session.key_event(Key::Char('w'), KeyKind::Press);
    session.frame(20, 10);
    let after_one = session.engine().player();
    let out = session.frame(20, 10).unwrap();
    assert!(out.starts_with(b"\x1b[H"));
    assert_eq!(session.engine().player(), after_one);
}

#[test]
fn a_frame_matches_the_engine() {
    let mut session = Session::new();
    let mut engine = Raycaster::new();
    let keys = [Key::Char('d'), Key::Left, Key::Char('w'), Key::Other, Key::Down, Key::Char('a'), Key::Char('z')];
    let intents = vec![Intent::StrafeRight, Intent::RotateLeft, Intent::Forward, Intent::Backward, Intent::StrafeLeft];
    for key in keys {
        session.key_event(key, KeyKind::Press);
    }
    engine.update(&intents);
    assert_eq!(session.frame(33, 11), Some(engine.render(33, 11)));
    assert_eq!(session.engine().player(), engine.player());
}

#[test]
fn only_presses_count() {
    let mut session = Session::new();
    assert_eq!(session.key_event(Key::Char('w'), KeyKind::Release), Phase::Running);
    assert_eq!(session.key_event(Key::Char('w'), KeyKind::Repeat), Phase::Running);
    assert_eq!(session.key_event(Key::Char('q'), KeyKind::Release), Phase::Running);
    assert_eq!(session.key_event(Key::Esc, KeyKind::Repeat), Phase::Running);
    session.frame(10, 5);
    assert_eq!(session.engine().player(), Player { x: 2_000_000, y: 2_000_000, angle: 0 });
    assert_eq!(session.phase(), Phase::Running);
}

#[test]
fn a_quit_key_ends_the_session() {
    let mut session = Session::new();
    assert_eq!(session.key_event(Key::Char('q'), KeyKind::Press), Phase::Terminated);
    assert_eq!(session.phase(), Phase::Terminated);
    let mut session = Session::new();
    assert_eq!(session.key_event(Key::Esc, KeyKind::Press), Phase::Terminated);
    assert_eq!(session.phase(), Phase::Terminated);
}

#[test]
fn a_terminated_session_stays_terminated() {
    let mut session = Session::new();
    session.key_event(Key::Char('w'), KeyKind::Press);
    session.key_event(Key::Esc, KeyKind::Press);
    assert_eq!(session.key_event(Key::Char('w'), KeyKind::Press), Phase::Terminated);
    assert_eq!(session.key_event(Key::Other, KeyKind::Press), Phase::Terminated);
    assert_eq!(session.key_event(Key::Char('q'), KeyKind::Release), Phase::Terminated);
    assert_eq!(session.frame(80, 24), None);
    assert_eq!(session.frame(80, 24), None);
    assert_eq!(session.phase(), Phase::Terminated);
    assert_eq!(session.engine().player(), Player { x: 2_000_000, y: 2_000_000, angle: 0 });
    assert_eq!(session.engine().last_size(), (0, 0));
}

#[test]
fn a_session_runs_frame_after_frame() {
    let mut session = Session::new();
    for _ in 0..10 {
        session.key_event(Key::Right, KeyKind::Press);
        assert!(session.frame(30, 10).is_some());
    }
    assert_eq!(session.engine().player().angle, 300_000);
    assert_eq!(session.phase(), Phase::Running);
}
