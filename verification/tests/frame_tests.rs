use raycaster::engine::{Raycaster, START_X, START_Y};
use raycaster::fixed::ONE;
use raycaster::frame::{FrameBuffer, FOV, NEAR_PLANE};
use raycaster::grid::{Cell, Grid};
use raycaster::player::Player;
use raycaster::ray::cast_ray;
use raycaster::shade::distance_to_color;
use raycaster::text::{push_decimal, push_half_block, push_home, push_line_break, push_reset, push_select_colors};
use raycaster::trig::{arctan, TWO_PI};

fn start() -> Player {
    Player { x: START_X, y: START_Y, angle: 0 }
}

fn pixels(frame: &FrameBuffer) -> Vec<Vec<u8>> {
    let mut rows = Vec::new();
    for y in 0..2 * frame.height() {
        let mut row = Vec::new();
        for x in 0..frame.width() {
            row.push(frame.get(x, y).unwrap());
        }
        rows.push(row);
    }
    rows
}

fn count_of(haystack: &[u8], needle: &[u8]) -> usize {
    haystack.windows(needle.len()).filter(|w| *w == needle).count()
}

#[test]
fn controls_are_spelled_out() {
    let mut out = Vec::new();
    push_home(&mut out);
    assert_eq!(out, b"\x1b[H".to_vec());
    let mut out = Vec::new();
    push_reset(&mut out);
    assert_eq!(out, b"\x1b[0m".to_vec());
    let mut out = Vec::new();
    push_line_break(&mut out);
    assert_eq!(out, b"\x1b[0m\r\n".to_vec());
    let mut out = Vec::new();
    push_half_block(&mut out);
    assert_eq!(out, "\u{2580}".as_bytes().to_vec());
}

#[test]
fn controls_append_to_what_is_there() {
    let mut out = b"ab".to_vec();
    push_home(&mut out);
    push_decimal(&mut out, 7);
    push_reset(&mut out);
    assert_eq!(out, b"ab\x1b[H7\x1b[0m".to_vec());
}

#[test]
fn decimals_have_no_leading_zeros() {
    for n in 0..=255u8 {
        let mut out = Vec::new();
        push_decimal(&mut out, n);
        assert_eq!(out, format!("{}", n).into_bytes());
    }
}

#[test]
fn colour_selection_names_both_colours() {
    let mut out = Vec::new();
    push_select_colors(&mut out, 221, 238);
    assert_eq!(out, b"\x1b[38;5;221m\x1b[48;5;238m".to_vec());
    let mut out = Vec::new();
    push_select_colors(&mut out, 0, 45);
    assert_eq!(out, b"\x1b[38;5;0m\x1b[48;5;45m".to_vec());
}

#[test]
fn field_of_view_and_near_plane() {
    assert_eq!(FOV * 100, 66 * ONE);
    assert_eq!(NEAR_PLANE * 10, ONE);
}

#[test]
fn one_cell_frame_from_the_start() {
    let grid = Grid::standard();
    let frame = FrameBuffer::paint(&grid, start(), 1, 1);
    assert_eq!(frame.width(), 1);
    assert_eq!(frame.height(), 1);
    assert_eq!(frame.get(0, 0), Some(221));
    assert_eq!(frame.get(0, 1), Some(238));
    assert_eq!(frame.get(1, 0), None);
    assert_eq!(frame.get(0, 2), None);
    assert_eq!(frame.encode(), "\x1b[H\x1b[38;5;221m\x1b[48;5;238m\u{2580}\x1b[0m".as_bytes().to_vec());
}

#[test]
fn three_by_two_frame_from_the_start() {
    let grid = Grid::standard();
    let frame = FrameBuffer::paint(&grid, start(), 3, 2);
    let expected: Vec<Vec<u8>> =
        vec![vec![40, 42, 42], vec![221, 40, 40], vec![221, 238, 238], vec![238, 239, 239]];
    assert_eq!(pixels(&frame), expected);
    let text = "\x1b[H\x1b[38;5;40m\x1b[48;5;221m\u{2580}\x1b[38;5;42m\x1b[48;5;40m\u{2580}\u{2580}\x1b[0m\r\n\
                \x1b[38;5;221m\x1b[48;5;238m\u{2580}\x1b[38;5;238m\x1b[48;5;239m\u{2580}\u{2580}\x1b[0m";
    assert_eq!(frame.encode(), text.as_bytes().to_vec());
}

#[test]
fn frame_has_two_pixel_rows_per_line() {
    let grid = Grid::standard();
    let frame = FrameBuffer::paint(&grid, start(), 80, 24);
    assert_eq!(frame.width(), 80);
    assert_eq!(frame.height(), 24);
    for y in 0..48 {
        for x in 0..80 {
            assert!(frame.get(x, y).is_some());
        }
    }
    assert_eq!(frame.get(80, 0), None);
    assert_eq!(frame.get(0, 48), None);
    assert_eq!(frame.get(usize::MAX, usize::MAX), None);
}

#[test]
fn first_column_of_a_full_screen() {
    let grid = Grid::standard();
    let frame = FrameBuffer::paint(&grid, start(), 80, 24);
    // The leftmost ray meets the top wall 1.8154 away: a slice of 26 pixels,
    // rows 11 to 36, below eleven rows of ceiling and above eleven of floor.
    let mut expected: Vec<u8> = Vec::new();
    for y in 0..48u32 {
        if y < 11 {
            expected.push(39 + (6 * (11 - y) / 48) as u8);
        } else if y < 37 {
            expected.push(221);
        } else {
            expected.push(238 + (6 * (y - 37) / 48) as u8);
        }
    }
    for y in 0..48usize {
        assert_eq!(frame.get(0, y), Some(expected[y]), "row {}", y);
    }
}

#[test]
fn every_pixel_follows_its_column() {
    let grid = Grid::standard();
    let player = Player { x: 12_300_000, y: 7_700_000, angle: 2_100_000 };
    let (width, height) = (40u16, 15u16);
    let frame = FrameBuffer::paint(&grid, player, width, height);
    let rows = 2 * height as i128;
    for x in 0..width as i64 {
        let camera = 2 * x * ONE / width as i64 - ONE;
        let angle = (player.angle + arctan(camera * FOV / ONE)).rem_euclid(TWO_PI);
        let distance = cast_ray(&grid, player.x, player.y, angle);
        let tall = rows * ONE as i128 / distance.max(NEAR_PLANE as i128);
        let top = ((rows - tall) / 2).max(0);
        let bottom = ((rows + tall) / 2).min(rows);
        for y in 0..rows {
            let expected = if y < top {
                39 + (6 * (top - y) / rows) as u8
            } else if y < bottom {
                distance_to_color(distance)
            } else {
                238 + (6 * (y - bottom) / rows) as u8
            };
            assert_eq!(frame.get(x as usize, y as usize), Some(expected), "pixel ({}, {})", x, y);
        }
    }
}

#[test]
fn a_wall_in_the_face_fills_the_column() {
    let grid = Grid::standard();
    let player = Player { x: 9_950_000, y: 2_500_000, angle: 0 };
    let frame = FrameBuffer::paint(&grid, player, 9, 5);
    for y in 0..10 {
        assert_eq!(frame.get(4, y), Some(225), "row {}", y);
    }
}

#[test]
fn painting_twice_gives_the_same_frame() {
    let grid = Grid::standard();
    let player = Player { x: 5_250_000, y: 20_750_000, angle: 4_000_000 };
    let first = FrameBuffer::paint(&grid, player, 64, 20);
    let second = FrameBuffer::paint(&grid, player, 64, 20);
    assert_eq!(pixels(&first), pixels(&second));
    assert_eq!(first.encode(), second.encode());
}

#[test]
fn frames_of_no_size() {
    let grid = Grid::standard();
    let frame = FrameBuffer::paint(&grid, start(), 0, 0);
    assert_eq!((frame.width(), frame.height()), (0, 0));
    assert_eq!(frame.encode(), b"\x1b[H\x1b[0m".to_vec());
    let frame = FrameBuffer::paint(&grid, start(), 7, 0);
    assert_eq!((frame.width(), frame.height()), (7, 0));
    assert_eq!(frame.get(0, 0), None);
    assert_eq!(frame.encode(), b"\x1b[H\x1b[0m".to_vec());
    let frame = FrameBuffer::paint(&grid, start(), 0, 3);
    assert_eq!((frame.width(), frame.height()), (0, 3));
    assert_eq!(frame.get(0, 0), None);
    assert_eq!(frame.encode(), b"\x1b[H\x1b[0m\r\n\x1b[0m\r\n\x1b[0m".to_vec());
}

#[test]
fn frame_text_has_one_glyph_per_cell() {
    let grid = Grid::standard();
    let frame = FrameBuffer::paint(&grid, start(), 80, 24);
    let text = frame.encode();
    assert!(text.starts_with(b"\x1b[H"));
    assert!(text.ends_with(b"\x1b[0m"));
    assert_eq!(count_of(&text, "\u{2580}".as_bytes()), 80 * 24);
    assert_eq!(count_of(&text, b"\x1b[0m\r\n"), 23);
    assert_eq!(count_of(&text, b"\r\n"), 23);
    assert_eq!(count_of(&text, b"\x1b[H"), 1);
    assert_eq!(count_of(&text, b"\x1b[0m"), 24);
    assert!(!text.contains(&b'J'));
    assert!(std::str::from_utf8(&text).is_ok());
}

#[test]
fn colours_are_selected_only_where_they_change() {
    let grid = Grid::standard();
    let frame = FrameBuffer::paint(&grid, start(), 80, 24);
    let rows = pixels(&frame);
    let mut changes = 0;
    for line in 0..24 {
        let mut before = (0u8, 0u8);
        for x in 0..80 {
            let colours = (rows[2 * line][x], rows[2 * line + 1][x]);
            if colours != before {
                changes += 1;
            }
            before = colours;
        }
    }
    let text = frame.encode();
    assert_eq!(count_of(&text, b"\x1b[38;5;"), changes);
    assert_eq!(count_of(&text, b"\x1b[48;5;"), changes);
    assert!(changes < 80 * 24);
    assert!(changes >= 24);
}

#[test]
fn frame_text_decodes_back_to_the_pixels() {
    let grid = Grid::standard();
    let player = Player { x: 12_300_000, y: 7_700_000, angle: 5_100_000 };
    let frame = FrameBuffer::paint(&grid, player, 31, 9);
    let rows = pixels(&frame);
    let text = String::from_utf8(frame.encode()).unwrap();
    let body = text.strip_prefix("\x1b[H").unwrap().strip_suffix("\x1b[0m").unwrap();
    let lines: Vec<&str> = body.split("\x1b[0m\r\n").collect();
    assert_eq!(lines.len(), 9);
    for (line, cells) in lines.iter().enumerate() {
        let mut colours = (0u8, 0u8);
        let mut x = 0;
        let mut rest = *cells;
        while !rest.is_empty() {
            if let Some(after) = rest.strip_prefix("\x1b[38;5;") {
                let (fg, after) = after.split_once("m\x1b[48;5;").unwrap();
                let (bg, after) = after.split_once('m').unwrap();
                colours = (fg.parse().unwrap(), bg.parse().unwrap());
                rest = after;
            }
            rest = rest.strip_prefix('\u{2580}').unwrap();
            assert_eq!(colours, (rows[2 * line][x], rows[2 * line + 1][x]), "cell ({}, {})", x, line);
            x += 1;
        }
        assert_eq!(x, 31);
    }
}

#[test]
fn the_view_is_mirrored_in_a_symmetric_room() {
    let mut rows = vec![vec![Cell::Empty; 9]; 9];
    for i in 0..9 {
        rows[0][i] = Cell::Wall;
        rows[8][i] = Cell::Wall;
        rows[i][0] = Cell::Wall;
        rows[i][8] = Cell::Wall;
    }
    let grid = Grid::from_rows(rows).unwrap();
    let player = Player { x: 4_500_000, y: 4_500_000, angle: 0 };
    let frame = FrameBuffer::paint(&grid, player, 41, 12);
    // Column 20 looks straight ahead at the wall 3.5 cells away.
    let tall = 24 * ONE / 3_500_000;
    assert_eq!(tall, 6);
    for y in 0..24usize {
        let colour = frame.get(20, y).unwrap();
        assert_eq!(colour == distance_to_color(3_500_000), (9..15).contains(&y), "row {}", y);
    }
}

#[test]
fn engine_and_painter_agree() {
    let mut engine = Raycaster::new();
    let frame = FrameBuffer::paint(engine.grid(), engine.player(), 50, 18);
    let out = engine.render(50, 18);
    assert!(out.ends_with(&frame.encode()));
}
