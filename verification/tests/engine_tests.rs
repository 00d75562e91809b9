use raycaster::engine::{Raycaster, START_X, START_Y};
use raycaster::fixed::ONE;
use raycaster::frame::FrameBuffer;
use raycaster::grid::Cell;
use raycaster::player::{Intent, Player, ROTATION_SPEED};

const CLEAR: &[u8] = b"\x1b[2J";
const HOME: &[u8] = b"\x1b[H";

fn holds(haystack: &[u8], needle: &[u8]) -> bool {
    haystack.windows(needle.len()).any(|w| w == needle)
}

#[test]
fn a_new_engine_stands_at_the_start() {
    let engine = Raycaster::new();
    assert_eq!((START_X, START_Y), (2 * ONE, 2 * ONE));
    assert_eq!(engine.player(), Player { x: 2_000_000, y: 2_000_000, angle: 0 });
    assert_eq!(engine.last_size(), (0, 0));
    assert_eq!(engine.grid().width(), 24);
    assert_eq!(engine.grid().height(), 24);
    assert_eq!(engine.grid().lookup(2, 2), Cell::Empty);
    assert_eq!(engine.grid().lookup(3, 2), Cell::Empty);
}

#[test]
fn the_first_frame_clears_the_screen() {
    let mut engine = Raycaster::new();
    let out = engine.render(80, 24);
    assert!(out.starts_with(b"\x1b[2J\x1b[H"));
    assert_eq!(engine.last_size(), (80, 24));
    let frame = FrameBuffer::paint(engine.grid(), engine.player(), 80, 24).encode();
    assert_eq!(out.len(), CLEAR.len() + frame.len());
    assert_eq!(&out[..CLEAR.len()], CLEAR);
    assert_eq!(&out[CLEAR.len()..], &frame[..]);
}

#[test]
fn a_steady_screen_is_not_cleared() {
    let mut engine = Raycaster::new();
    let first = engine.render(80, 24);
    let second = engine.render(80, 24);
    assert!(second.starts_with(HOME));
    assert!(!holds(&second, CLEAR));
    assert!(!second.contains(&b'J'));
    assert_eq!(engine.last_size(), (80, 24));
    assert_eq!(&first[CLEAR.len()..], &second[..]);
    let third = engine.render(80, 24);
    assert_eq!(second, third);
}

#[test]
fn a_resized_screen_is_cleared_once() {
    let mut engine = Raycaster::new();
    engine.render(80, 24);
    let out = engine.render(100, 30);
    assert!(out.starts_with(b"\x1b[2J\x1b[H"));
    assert_eq!(engine.last_size(), (100, 30));
    let out = engine.render(100, 30);
    assert!(out.starts_with(HOME));
    assert!(!holds(&out, CLEAR));
    let out = engine.render(100, 31);
    assert!(out.starts_with(CLEAR));
    assert_eq!(engine.last_size(), (100, 31));
    let out = engine.render(99, 31);
    assert!(out.starts_with(CLEAR));
    assert_eq!(engine.last_size(), (99, 31));
    let out = engine.render(80, 24);
    assert!(out.starts_with(CLEAR));
    assert_eq!(engine.last_size(), (80, 24));
}

#[test]
fn a_screen_of_no_size_matches_the_fresh_engine() {
    let mut engine = Raycaster::new();
    let out = engine.render(0, 0);
    assert_eq!(out, b"\x1b[H\x1b[0m".to_vec());
    assert_eq!(engine.last_size(), (0, 0));
    let out = engine.render(0, 1);
    assert_eq!(out, b"\x1b[2J\x1b[H\x1b[0m".to_vec());
    assert_eq!(engine.last_size(), (0, 1));
}

#[test]
fn rendering_leaves_the_player_alone() {
    let mut engine = Raycaster::new();
    engine.update(&vec![Intent::Forward, Intent::RotateRight]);
    let before = engine.player();
    engine.render(40, 12);
    engine.render(41, 12);
    assert_eq!(engine.player(), before);
}

#[test]
fn updating_leaves_the_screen_size_alone() {
    let mut engine = Raycaster::new();
    engine.render(40, 12);
    engine.update(&vec![Intent::Forward]);
    assert_eq!(engine.last_size(), (40, 12));
    let out = engine.render(40, 12);
    assert!(out.starts_with(HOME));
}

#[test]
fn the_engine_moves_its_player() {
    let mut engine = Raycaster::new();
    engine.update(&vec![Intent::Forward]);
    assert_eq!(engine.player(), Player { x: 2_050_000, y: 2_000_000, angle: 0 });
    engine.update(&vec![Intent::RotateRight; 5]);
    assert_eq!(engine.player(), Player { x: 2_050_000, y: 2_000_000, angle: 5 * ROTATION_SPEED });
    engine.update(&Vec::new());
    assert_eq!(engine.player(), Player { x: 2_050_000, y: 2_000_000, angle: 150_000 });
}

#[test]
fn the_engine_stops_at_walls() {
    let mut engine = Raycaster::new();
    for _ in 0..30 {
        engine.update(&vec![Intent::Backward]);
    }
    assert_eq!(engine.player(), Player { x: 1_000_000, y: 2_000_000, angle: 0 });
    for _ in 0..400 {
        engine.update(&vec![Intent::Forward]);
    }
    assert_eq!(engine.player(), Player { x: 9_950_000, y: 2_000_000, angle: 0 });
}

#[test]
fn a_move_changes_the_picture() {
    let mut engine = Raycaster::new();
    let before = engine.render(60, 20);
    engine.update(&vec![Intent::RotateRight; 20]);
    let after = engine.render(60, 20);
    assert_ne!(&before[CLEAR.len()..], &after[..]);
}
