//! The animations that ship with the library, as frame tables.
//!
//! Each table is written out cell by cell. What its contract states is the
//! rule that the table follows.

use vstd::prelude::*;
use crate::frame::Frame;

verus! {

/// Place of a cell on the spiral that starts right of the centre and winds
/// outwards, counter-clockwise, to end in the last cell of the last row.
pub open spec fn spiral_rank(r: int, c: int) -> int {
    if r == 0 {
        9 - c
    } else if r == 3 {
        12 + c
    } else if c == 0 {
        9 + r
    } else if c == 3 {
        6 - r
    } else if r == 1 {
        2 - c
    } else {
        1 + c
    }
}

/// Whether the cell is lit in the first of the two checkerboards: the cells
/// whose row and column add up to an odd number.
pub open spec fn odd_cell(r: int, c: int) -> bool {
    (r + c) % 2 == 1
}

/// The position of the spinner's hand in frame `step` of its animation. The
/// hand has twelve positions. It rests for two frames where it lies along a
/// row or a column and for one frame where it points at a corner.
pub open spec fn spinner_position(step: int) -> int {
    3 * (step / 5) + if step % 5 <= 1 {
        0int
    } else if step % 5 == 2 {
        1int
    } else {
        2int
    }
}

/// The inner end of the spinner's hand: one of the four centre cells, each
/// for three positions in a row.
pub open spec fn spinner_pivot(position: int) -> (int, int) {
    if position < 3 {
        (1, 2)
    } else if position < 6 {
        (2, 2)
    } else if position < 9 {
        (2, 1)
    } else {
        (1, 1)
    }
}

/// The outer end of the spinner's hand: it walks the border clockwise, one
/// cell for each position, starting in the first row, third column.
pub open spec fn spinner_tip(position: int) -> (int, int) {
    if position < 2 {
        (0, 2 + position)
    } else if position < 5 {
        (position - 1, 3)
    } else if position < 8 {
        (3, 7 - position)
    } else if position < 11 {
        (10 - position, 0)
    } else {
        (0, position - 10)
    }
}

/// A spiral that grows from the centre until the whole matrix is lit and is
/// then put out again, cell by cell, along the same way: thirty-two frames,
/// the last one dark.
pub fn pat_spiral_trail() -> (frames: [Frame; 32])
    ensures
        forall|k: int, r: int, c: int|
            0 <= k < 32 && 0 <= r < 4 && 0 <= c < 4 ==> #[trigger] frames[k].lit(r, c) == if k
                < 16 {
                spiral_rank(r, c) <= k
            } else {
                spiral_rank(r, c) > k - 16
            },
{
    let f = false;
    let t = true;
    [
        Frame {
            cells: [
                [f, f, f, f],
                [f, f, t, f],
                [f, f, f, f],
                [f, f, f, f],
            ],
        },
        Frame {
            cells: [
                [f, f, f, f],
                [f, t, t, f],
                [f, f, f, f],
                [f, f, f, f],
            ],
        },
        Frame {
            cells: [
                [f, f, f, f],
                [f, t, t, f],
                [f, t, f, f],
                [f, f, f, f],
            ],
        },
        Frame {
            cells: [
                [f, f, f, f],
                [f, t, t, f],
                [f, t, t, f],
                [f, f, f, f],
            ],
        },
        Frame {
            cells: [
                [f, f, f, f],
                [f, t, t, f],
                [f, t, t, t],
                [f, f, f, f],
            ],
        },
        Frame {
            cells: [
                [f, f, f, f],
                [f, t, t, t],
                [f, t, t, t],
                [f, f, f, f],
            ],
        },
        Frame {
            cells: [
                [f, f, f, t],
                [f, t, t, t],
                [f, t, t, t],
                [f, f, f, f],
            ],
        },
        Frame {
            cells: [
                [f, f, t, t],
                [f, t, t, t],
                [f, t, t, t],
                [f, f, f, f],
            ],
        },
        Frame {
            cells: [
                [f, t, t, t],
                [f, t, t, t],
                [f, t, t, t],
                [f, f, f, f],
            ],
        },
        Frame {
            cells: [
                [t, t, t, t],
                [f, t, t, t],
                [f, t, t, t],
                [f, f, f, f],
            ],
        },
        Frame {
            cells: [
                [t, t, t, t],
                [t, t, t, t],
                [f, t, t, t],
                [f, f, f, f],
            ],
        },
        Frame {
            cells: [
                [t, t, t, t],
                [t, t, t, t],
                [t, t, t, t],
                [f, f, f, f],
            ],
        },
        Frame {
            cells: [
                [t, t, t, t],
                [t, t, t, t],
                [t, t, t, t],
                [t, f, f, f],
            ],
        },
        Frame {
            cells: [
                [t, t, t, t],
                [t, t, t, t],
                [t, t, t, t],
                [t, t, f, f],
            ],
        },
        Frame {
            cells: [
                [t, t, t, t],
                [t, t, t, t],
                [t, t, t, t],
                [t, t, t, f],
            ],
        },
        Frame {
            cells: [
                [t, t, t, t],
                [t, t, t, t],
                [t, t, t, t],
                [t, t, t, t],
            ],
        },
        Frame {
            cells: [
                [t, t, t, t],
                [t, t, f, t],
                [t, t, t, t],
                [t, t, t, t],
            ],
        },
        Frame {
            cells: [
                [t, t, t, t],
                [t, f, f, t],
                [t, t, t, t],
                [t, t, t, t],
            ],
        },
        Frame {
            cells: [
                [t, t, t, t],
                [t, f, f, t],
                [t, f, t, t],
                [t, t, t, t],
            ],
        },
        Frame {
            cells: [
                [t, t, t, t],
                [t, f, f, t],
                [t, f, f, t],
                [t, t, t, t],
            ],
        },
        Frame {
            cells: [
                [t, t, t, t],
                [t, f, f, t],
                [t, f, f, f],
                [t, t, t, t],
            ],
        },
        Frame {
            cells: [
                [t, t, t, t],
                [t, f, f, f],
                [t, f, f, f],
                [t, t, t, t],
            ],
        },
        Frame {
            cells: [
                [t, t, t, f],
                [t, f, f, f],
                [t, f, f, f],
                [t, t, t, t],
            ],
        },
        Frame {
            cells: [
                [t, t, f, f],
                [t, f, f, f],
                [t, f, f, f],
                [t, t, t, t],
            ],
        },
        Frame {
            cells: [
                [t, f, f, f],
                [t, f, f, f],
                [t, f, f, f],
                [t, t, t, t],
            ],
        },
        Frame {
            cells: [
                [f, f, f, f],
                [t, f, f, f],
                [t, f, f, f],
                [t, t, t, t],
            ],
        },
        Frame {
            cells: [
                [f, f, f, f],
                [f, f, f, f],
                [t, f, f, f],
                [t, t, t, t],
            ],
        },
        Frame {
            cells: [
                [f, f, f, f],
                [f, f, f, f],
                [f, f, f, f],
                [t, t, t, t],
            ],
        },
        Frame {
            cells: [
                [f, f, f, f],
                [f, f, f, f],
                [f, f, f, f],
                [f, t, t, t],
            ],
        },
        Frame {
            cells: [
                [f, f, f, f],
                [f, f, f, f],
                [f, f, f, f],
                [f, f, t, t],
            ],
        },
        Frame {
            cells: [
                [f, f, f, f],
                [f, f, f, f],
                [f, f, f, f],
                [f, f, f, t],
            ],
        },
        Frame {
            cells: [
                [f, f, f, f],
                [f, f, f, f],
                [f, f, f, f],
                [f, f, f, f],
            ],
        },
    ]
}

/// A light of two cells that runs along the spiral from the centre outwards:
/// eighteen frames, the last one dark.
pub fn pat_spiral() -> (frames: [Frame; 18])
    ensures
        forall|k: int, r: int, c: int|
            0 <= k < 18 && 0 <= r < 4 && 0 <= c < 4 ==> #[trigger] frames[k].lit(r, c) == (k - 1
                <= spiral_rank(r, c) <= k),
{
    let f = false;
    let t = true;
    [
        Frame {
            cells: [
                [f, f, f, f],
                [f, f, t, f],
                [f, f, f, f],
                [f, f, f, f],
            ],
        },
        Frame {
            cells: [
                [f, f, f, f],
                [f, t, t, f],
                [f, f, f, f],
                [f, f, f, f],
            ],
        },
        Frame {
            cells: [
                [f, f, f, f],
                [f, t, f, f],
                [f, t, f, f],
                [f, f, f, f],
            ],
        },
        Frame {
            cells: [
                [f, f, f, f],
                [f, f, f, f],
                [f, t, t, f],
                [f, f, f, f],
            ],
        },
        Frame {
            cells: [
                [f, f, f, f],
                [f, f, f, f],
                [f, f, t, t],
                [f, f, f, f],
            ],
        },
        Frame {
            cells: [
                [f, f, f, f],
                [f, f, f, t],
                [f, f, f, t],
                [f, f, f, f],
            ],
        },
        Frame {
            cells: [
                [f, f, f, t],
                [f, f, f, t],
                [f, f, f, f],
                [f, f, f, f],
            ],
        },
        Frame {
            cells: [
                [f, f, t, t],
                [f, f, f, f],
                [f, f, f, f],
                [f, f, f, f],
            ],
        },
        Frame {
            cells: [
                [f, t, t, f],
                [f, f, f, f],
                [f, f, f, f],
                [f, f, f, f],
            ],
        },
        Frame {
            cells: [
                [t, t, f, f],
                [f, f, f, f],
                [f, f, f, f],
                [f, f, f, f],
            ],
        },
        Frame {
            cells: [
                [t, f, f, f],
                [t, f, f, f],
                [f, f, f, f],
                [f, f, f, f],
            ],
        },
        Frame {
            cells: [
                [f, f, f, f],
                [t, f, f, f],
                [t, f, f, f],
                [f, f, f, f],
            ],
        },
        Frame {
            cells: [
                [f, f, f, f],
                [f, f, f, f],
                [t, f, f, f],
                [t, f, f, f],
            ],
        },
        Frame {
            cells: [
                [f, f, f, f],
                [f, f, f, f],
                [f, f, f, f],
                [t, t, f, f],
            ],
        },
        Frame {
            cells: [
                [f, f, f, f],
                [f, f, f, f],
                [f, f, f, f],
                [f, t, t, f],
            ],
        },
        Frame {
            cells: [
                [f, f, f, f],
                [f, f, f, f],
                [f, f, f, f],
                [f, f, t, t],
            ],
        },
        Frame {
            cells: [
                [f, f, f, f],
                [f, f, f, f],
                [f, f, f, f],
                [f, f, f, t],
            ],
        },
        Frame {
            cells: [
                [f, f, f, f],
                [f, f, f, f],
                [f, f, f, f],
                [f, f, f, f],
            ],
        },
    ]
}

/// Two checkerboards, each the inverse of the other, for a blinking pattern.
pub fn pat_xor() -> (frames: [Frame; 2])
    ensures
        forall|r: int, c: int|
            0 <= r < 4 && 0 <= c < 4 ==> #[trigger] frames[0].lit(r, c) == odd_cell(r, c),
        forall|r: int, c: int|
            0 <= r < 4 && 0 <= c < 4 ==> #[trigger] frames[1].lit(r, c) == !odd_cell(r, c),
{
    let f = false;
    let t = true;
    let f_xor_one = Frame {
        cells: [
            [f, t, f, t],
            [t, f, t, f],
            [f, t, f, t],
            [t, f, t, f],
        ],
    };
    let f_xor_two = Frame {
        cells: [
            [t, f, t, f],
            [f, t, f, t],
            [t, f, t, f],
            [f, t, f, t],
        ],
    };
    [f_xor_one, f_xor_two]
}

/// A hand of two cells that turns clockwise about the centre: twenty frames
/// for one turn.
pub fn pat_spinner() -> (frames: [Frame; 20])
    ensures
        forall|k: int, r: int, c: int|
            0 <= k < 20 && 0 <= r < 4 && 0 <= c < 4 ==> #[trigger] frames[k].lit(r, c) == ((r, c)
                == spinner_pivot(spinner_position(k)) || (r, c) == spinner_tip(
                spinner_position(k),
            )),
{
    let f = false;
    let t = true;
    let f_frame_01 = Frame {
        cells: [
            [f, f, t, f],
            [f, f, t, f],
            [f, f, f, f],
            [f, f, f, f],
        ],
    };
    let f_frame_02 = Frame {
        cells: [
            [f, f, f, t],
            [f, f, t, f],
            [f, f, f, f],
            [f, f, f, f],
        ],
    };
    let f_frame_03 = Frame {
        cells: [
            [f, f, f, f],
            [f, f, t, t],
            [f, f, f, f],
            [f, f, f, f],
        ],
    };
    let f_frame_04 = Frame {
        cells: [
            [f, f, f, f],
            [f, f, f, f],
            [f, f, t, t],
            [f, f, f, f],
        ],
    };
    let f_frame_05 = Frame {
        cells: [
            [f, f, f, f],
            [f, f, f, f],
            [f, f, t, f],
            [f, f, f, t],
        ],
    };
    let f_frame_06 = Frame {
        cells: [
            [f, f, f, f],
            [f, f, f, f],
            [f, f, t, f],
            [f, f, t, f],
        ],
    };
    let f_frame_07 = Frame {
        cells: [
            [f, f, f, f],
            [f, f, f, f],
            [f, t, f, f],
            [f, t, f, f],
        ],
    };
    let f_frame_08 = Frame {
        cells: [
            [f, f, f, f],
            [f, f, f, f],
            [f, t, f, f],
            [t, f, f, f],
        ],
    };
    let f_frame_09 = Frame {
        cells: [
            [f, f, f, f],
            [f, f, f, f],
            [t, t, f, f],
            [f, f, f, f],
        ],
    };
    let f_frame_10 = Frame {
        cells: [
            [f, f, f, f],
            [t, t, f, f],
            [f, f, f, f],
            [f, f, f, f],
        ],
    };
    let f_frame_11 = Frame {
        cells: [
            [t, f, f, f],
            [f, t, f, f],
            [f, f, f, f],
            [f, f, f, f],
        ],
    };
    let f_frame_12 = Frame {
        cells: [
            [f, t, f, f],
            [f, t, f, f],
            [f, f, f, f],
            [f, f, f, f],
        ],
    };
    [
        f_frame_01, f_frame_01, f_frame_02, f_frame_03, f_frame_03, f_frame_04, f_frame_04,
        f_frame_05, f_frame_06, f_frame_06, f_frame_07, f_frame_07, f_frame_08, f_frame_09,
        f_frame_09, f_frame_10, f_frame_10, f_frame_11, f_frame_12, f_frame_12,
    ]
}

} // verus!
