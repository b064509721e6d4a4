use led_matrix::frame::Frame;
use led_matrix::patterns::{pat_spinner, pat_spiral, pat_spiral_trail, pat_xor};

// Each frame is drawn row by row, first row first: '#' is a lit cell.

const SPIRAL_TRAIL: [&str; 32] = [
    ".... ..#. .... ....",
    ".... .##. .... ....",
    ".... .##. .#.. ....",
    ".... .##. .##. ....",
    ".... .##. .### ....",
    ".... .### .### ....",
    "...# .### .### ....",
    "..## .### .### ....",
    ".### .### .### ....",
    "#### .### .### ....",
    "#### #### .### ....",
    "#### #### #### ....",
    "#### #### #### #...",
    "#### #### #### ##..",
    "#### #### #### ###.",
    "#### #### #### ####",
    "#### ##.# #### ####",
    "#### #..# #### ####",
    "#### #..# #.## ####",
    "#### #..# #..# ####",
    "#### #..# #... ####",
    "#### #... #... ####",
    "###. #... #... ####",
    "##.. #... #... ####",
    "#... #... #... ####",
    ".... #... #... ####",
    ".... .... #... ####",
    ".... .... .... ####",
    ".... .... .... .###",
    ".... .... .... ..##",
    ".... .... .... ...#",
    ".... .... .... ....",
];

const SPIRAL: [&str; 18] = [
    ".... ..#. .... ....",
    ".... .##. .... ....",
    ".... .#.. .#.. ....",
    ".... .... .##. ....",
    ".... .... ..## ....",
    ".... ...# ...# ....",
    "...# ...# .... ....",
    "..## .... .... ....",
    ".##. .... .... ....",
    "##.. .... .... ....",
    "#... #... .... ....",
    ".... #... #... ....",
    ".... .... #... #...",
    ".... .... .... ##..",
    ".... .... .... .##.",
    ".... .... .... ..##",
    ".... .... .... ...#",
    ".... .... .... ....",
];

const XOR: [&str; 2] = [
    ".#.# #.#. .#.# #.#.",
    "#.#. .#.# #.#. .#.#",
];

const SPINNER: [&str; 20] = [
    "..#. ..#. .... ....",
    "..#. ..#. .... ....",
    "...# ..#. .... ....",
    ".... ..## .... ....",
    ".... ..## .... ....",
    ".... .... ..## ....",
    ".... .... ..## ....",
    ".... .... ..#. ...#",
    ".... .... ..#. ..#.",
    ".... .... ..#. ..#.",
    ".... .... .#.. .#..",
    ".... .... .#.. .#..",
    ".... .... .#.. #...",
    ".... .... ##.. ....",
    ".... .... ##.. ....",
    ".... ##.. .... ....",
    ".... ##.. .... ....",
    "#... .#.. .... ....",
    ".#.. .#.. .... ....",
    ".#.. .#.. .... ....",
];

fn drawn(picture: &str) -> Frame {
    let mut cells = [[false; 4]; 4];
    let rows: Vec<&str> = picture.split(' ').collect();
    assert_eq!(rows.len(), 4);
    for (r, row) in rows.iter().enumerate() {
        assert_eq!(row.len(), 4);
        for (c, cell) in row.chars().enumerate() {
            cells[r][c] = cell == '#';
        }
    }
    Frame::new(cells)
}

fn check(frames: &[Frame], pictures: &[&str]) {
    assert_eq!(frames.len(), pictures.len());
    for (k, (frame, picture)) in frames.iter().zip(pictures).enumerate() {
        assert_eq!(*frame, drawn(picture), "frame {}", k);
    }
}

#[test]
fn spiral_trail_table() {
    check(&pat_spiral_trail(), &SPIRAL_TRAIL);
}

#[test]
fn spiral_table() {
    check(&pat_spiral(), &SPIRAL);
}

#[test]
fn xor_table() {
    check(&pat_xor(), &XOR);
}

#[test]
fn spinner_table() {
    check(&pat_spinner(), &SPINNER);
}

#[test]
fn spiral_trail_fills_then_empties() {
    let frames = pat_spiral_trail();
    for k in 0..16 {
        assert_eq!(frames[k].count_lit(), k as u32 + 1);
        assert_eq!(frames[16 + k].count_lit(), 15 - k as u32);
    }
}

#[test]
fn spiral_light_is_two_cells_long() {
    let frames = pat_spiral();
    assert_eq!(frames[0].count_lit(), 1);
    for k in 1..16 {
        assert_eq!(frames[k].count_lit(), 2);
    }
    assert_eq!(frames[16].count_lit(), 1);
    assert_eq!(frames[17].count_lit(), 0);
}

#[test]
fn checkerboards_are_inverse() {
    let frames = pat_xor();
    for r in 0..4 {
        for c in 0..4 {
            assert_ne!(frames[0].is_lit(r, c), frames[1].is_lit(r, c));
        }
    }
    assert!(frames[0].is_lit(0, 1));
    assert!(frames[1].is_lit(0, 0));
}

#[test]
fn spinner_hand_has_two_cells() {
    for frame in pat_spinner() {
        assert_eq!(frame.count_lit(), 2);
    }
}
