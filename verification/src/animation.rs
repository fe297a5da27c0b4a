//! The LED roulette: one lit pixel that circles the border of the display.

use vstd::prelude::*;

verus! {

/// Rows and columns of the display.
pub const SIDE: usize = 5;

/// Index of the last row and of the last column.
pub const LAST: usize = 4;

/// Number of border cells: the length of one lap.
pub const LAP: usize = 16;

/// How long each frame stays on the display, in milliseconds.
pub const FRAME_HOLD_MS: u32 = 1000;

/// A cell of the display.
#[derive(Clone, Copy, Debug, PartialEq, Eq, Structural)]
pub struct Cursor {
    pub row: usize,
    pub col: usize,
}

impl Cursor {
    /// The cell lies on the display.
    pub open spec fn in_grid(self) -> bool {
        self.row <= LAST && self.col <= LAST
    }

    /// The cell lies on the border of the display.
    pub open spec fn on_perimeter(self) -> bool {
        self.in_grid() && (self.row == 0 || self.row == LAST || self.col == 0 || self.col == LAST)
    }

    /// The cell reached by one tick. The first rule that applies decides:
    /// right along the top row, left along the bottom row, down the last
    /// column, up the first column. A cell that no rule covers stays.
    pub open spec fn next(self) -> Cursor {
        if self.col < LAST && self.row == 0 {
            Cursor { row: self.row, col: (self.col + 1) as usize }
        } else if 0 < self.col && self.row == LAST {
            Cursor { row: self.row, col: (self.col - 1) as usize }
        } else if self.col == LAST && self.row < LAST {
            Cursor { row: (self.row + 1) as usize, col: self.col }
        } else if self.col == 0 && self.row > 0 {
            Cursor { row: (self.row - 1) as usize, col: self.col }
        } else {
            self
        }
    }

    /// The top-left cell, where the animation starts.
    pub fn origin() -> (cursor: Cursor)
        ensures
            cursor == (Cursor { row: 0, col: 0 }),
    {
        Cursor { row: 0, col: 0 }
    }

    /// Moves the cursor by one tick.
    pub fn advance(&mut self)
        ensures
            *final(self) == old(self).next(),
    {
        if self.col < LAST && self.row == 0 {
            self.col += 1;
        } else if 0 < self.col && self.row == LAST {
            self.col -= 1;
        } else if self.col == LAST && self.row < LAST {
            self.row += 1;
        } else if self.col == 0 && self.row > 0 {
            self.row -= 1;
        }
    }

    /// The cell reached by `ticks` ticks.
    pub open spec fn after(self, ticks: nat) -> Cursor
        decreases ticks,
    {
        if ticks == 0 {
            self
        } else {
            self.after((ticks - 1) as nat).next()
        }
    }

    /// The place of a border cell on the lap: 0 for the top-left cell, then
    /// counting clockwise up to 15 for the cell below it.
    pub open spec fn lap_index(self) -> int
        recommends
            self.on_perimeter(),
    {
        if self.row == 0 {
            self.col as int
        } else if self.col == LAST {
            LAST + self.row
        } else if self.row == LAST {
            3 * LAST - self.col
        } else {
            4 * LAST - self.row
        }
    }

    /// The border cell at place `index` on the lap.
    pub open spec fn at_lap_index(index: int) -> Cursor
        recommends
            0 <= index < LAP,
    {
        if index <= LAST {
            Cursor { row: 0, col: index as usize }
        } else if index <= 2 * LAST {
            Cursor { row: (index - LAST) as usize, col: LAST }
        } else if index <= 3 * LAST {
            Cursor { row: LAST, col: (3 * LAST - index) as usize }
        } else {
            Cursor { row: (4 * LAST - index) as usize, col: 0 }
        }
    }
}

/// The lap numbers the border cells: every border cell has a place from 0 to
/// 15, and every place is a border cell.
pub proof fn lemma_lap_numbers_the_border(cursor: Cursor, index: int)
    ensures
        cursor.on_perimeter() ==> 0 <= cursor.lap_index() < LAP && Cursor::at_lap_index(
            cursor.lap_index(),
        ) == cursor,
        0 <= index < LAP ==> Cursor::at_lap_index(index).on_perimeter() && Cursor::at_lap_index(
            index,
        ).lap_index() == index,
{
}

/// A tick moves a border cell to the next place on the lap, clockwise, and
/// from the last place back to the first.
pub proof fn lemma_tick_follows_the_lap(cursor: Cursor)
    requires
        cursor.on_perimeter(),
    ensures
        cursor.next().on_perimeter(),
        cursor.next().lap_index() == (cursor.lap_index() + 1) % (LAP as int),
{
}

/// Any number of ticks from a border cell leads to the border cell that many
/// places further along the lap.
pub proof fn lemma_ticks_follow_the_lap(cursor: Cursor, ticks: nat)
    requires
        cursor.on_perimeter(),
    ensures
        cursor.after(ticks).on_perimeter(),
        cursor.after(ticks).lap_index() == (cursor.lap_index() + ticks) % (LAP as int),
    decreases ticks,
{
    if ticks > 0 {
        lemma_ticks_follow_the_lap(cursor, (ticks - 1) as nat);
        lemma_tick_follows_the_lap(cursor.after((ticks - 1) as nat));
    }
}

/// Cycle closure: sixteen ticks bring a border cell back to where it was.
pub proof fn lemma_lap_closes(cursor: Cursor)
    requires
        cursor.on_perimeter(),
    ensures
        cursor.after(LAP as nat) == cursor,
{
    lemma_ticks_follow_the_lap(cursor, LAP as nat);
    lemma_lap_numbers_the_border(cursor, 0);
    lemma_lap_numbers_the_border(cursor.after(LAP as nat), 0);
}

/// A lap from the top-left cell visits the border cells in lap order: after
/// `k` ticks, with `k` below sixteen, the cursor is at place `k`.
pub proof fn lemma_lap_from_origin(ticks: nat)
    requires
        ticks < LAP,
    ensures
        (Cursor { row: 0, col: 0 }).after(ticks) == Cursor::at_lap_index(ticks as int),
{
    let origin = Cursor { row: 0, col: 0 };
    lemma_ticks_follow_the_lap(origin, ticks);
    lemma_lap_numbers_the_border(origin.after(ticks), ticks as int);
}

/// A picture for the display: one brightness value per cell, 0 for dark.
#[derive(Clone, Copy, Debug, PartialEq, Eq)]
pub struct Frame {
    pub pixels: [[u8; SIDE]; SIDE],
}

impl Frame {
    /// The brightness of the pixel at `(row, col)`.
    pub open spec fn brightness(self, row: int, col: int) -> u8 {
        self.pixels[row][col]
    }

    /// The pixel at `(row, col)` is lit.
    pub open spec fn lit(self, row: int, col: int) -> bool {
        self.brightness(row, col) != 0
    }

    /// The cells of the display whose pixel is lit.
    pub open spec fn lit_cells(self) -> Set<(int, int)> {
        Set::new(
            |cell: (int, int)|
                0 <= cell.0 < SIDE && 0 <= cell.1 < SIDE && self.lit(cell.0, cell.1),
        )
    }

    /// The frame shows `cursor` and nothing else: its pixel has brightness 1,
    /// every other pixel is dark.
    pub open spec fn shows(self, cursor: Cursor) -> bool {
        forall|row: int, col: int|
            0 <= row < SIDE && 0 <= col < SIDE ==> #[trigger] self.brightness(row, col) == (if row
                == cursor.row && col == cursor.col {
                1u8
            } else {
                0u8
            })
    }

    /// The frame with every pixel dark.
    pub fn dark() -> (frame: Frame)
        ensures
            forall|row: int, col: int|
                0 <= row < SIDE && 0 <= col < SIDE ==> #[trigger] frame.brightness(row, col) == 0,
    {
        Frame { pixels: [[0u8; SIDE]; SIDE] }
    }

    /// The frame that shows `cursor` and nothing else.
    pub fn single(cursor: Cursor) -> (frame: Frame)
        requires
            cursor.in_grid(),
        ensures
            frame.shows(cursor),
    {
        let dark = Frame::dark();
        let mut frame = dark;
        frame.pixels[cursor.row][cursor.col] = 1;
        assert forall|row: int, col: int| 0 <= row < SIDE && 0 <= col < SIDE implies (
        #[trigger] frame.brightness(row, col)) == (if row == cursor.row && col == cursor.col {
            1u8
        } else {
            0u8
        }) by {
            assert(dark.brightness(row, col) == 0);
        }
        frame
    }
}

/// Exactly one pixel is lit in a frame that shows a cell of the display.
pub proof fn lemma_one_pixel_lit(frame: Frame, cursor: Cursor)
    requires
        cursor.in_grid(),
        frame.shows(cursor),
    ensures
        frame.lit_cells() == set![(cursor.row as int, cursor.col as int)],
        frame.lit_cells().len() == 1,
{
    let only = set![(cursor.row as int, cursor.col as int)];
    assert forall|cell: (int, int)| frame.lit_cells().contains(cell) <==> only.contains(cell) by {
        if 0 <= cell.0 < SIDE && 0 <= cell.1 < SIDE {
            assert(frame.brightness(cell.0, cell.1) == (if cell.0 == cursor.row && cell.1
                == cursor.col {
                1u8
            } else {
                0u8
            }));
        }
    }
    assert(frame.lit_cells() =~= only);
}

/// Every tick of the animation lights exactly one pixel, and that pixel lies
/// on the border; after a full lap of sixteen ticks the cursor is back where
/// it started.
pub proof fn lemma_roulette(start: Cursor, ticks: nat, frame: Frame)
    requires
        start.on_perimeter(),
        frame.shows(start.after(ticks)),
    ensures
        start.after(ticks).on_perimeter(),
        frame.lit_cells() == set![(start.after(ticks).row as int, start.after(ticks).col as int)],
        frame.lit_cells().len() == 1,
        start.after(LAP as nat) == start,
{
    lemma_ticks_follow_the_lap(start, ticks);
    lemma_one_pixel_lit(frame, start.after(ticks));
    lemma_lap_closes(start);
}

/// The animation state: the cursor on the border and the frame that shows it.
pub struct Animation {
    cursor: Cursor,
    frame: Frame,
}

impl View for Animation {
    type V = Cursor;

    /// The cell the animation has reached.
    closed spec fn view(&self) -> Cursor {
        self.cursor
    }
}

impl Animation {
    #[verifier::type_invariant]
    spec fn consistent(self) -> bool {
        self.cursor.on_perimeter() && self.frame.shows(self.cursor)
    }

    /// The animation at its start, in the top-left cell.
    pub fn new() -> (animation: Animation)
        ensures
            animation@ == (Cursor { row: 0, col: 0 }),
    {
        let cursor = Cursor::origin();
        Animation { cursor, frame: Frame::single(cursor) }
    }

    /// The cell the animation has reached: always one of the border.
    pub fn cursor(&self) -> (cursor: Cursor)
        ensures
            cursor == self@,
            cursor.on_perimeter(),
    {
        proof {
            use_type_invariant(self);
        }
        self.cursor
    }

    /// One tick: the old pixel goes dark, the cursor moves to the next border
    /// cell clockwise, and its pixel is lit.
    pub fn advance(&mut self)
        ensures
            final(self)@ == old(self)@.next(),
            final(self)@.on_perimeter(),
    {
        proof {
            use_type_invariant(&*self);
            lemma_tick_follows_the_lap(self.cursor);
        }
        let mut cursor = self.cursor;
        let mut frame = self.frame;
        frame.pixels[cursor.row][cursor.col] = 0;
        cursor.advance();
        frame.pixels[cursor.row][cursor.col] = 1;
        assert(frame.shows(cursor)) by {
            assert forall|row: int, col: int| 0 <= row < SIDE && 0 <= col < SIDE implies (
            #[trigger] frame.brightness(row, col)) == (if row == cursor.row && col == cursor.col {
                1u8
            } else {
                0u8
            }) by {
                assert(self.frame.brightness(row, col) == (if row == self.cursor.row && col
                    == self.cursor.col {
                    1u8
                } else {
                    0u8
                }));
            }
        }
        *self = Animation { cursor, frame };
    }

    /// The frame to display: exactly the cursor's pixel lit, all else dark.
    pub fn render(&self) -> (frame: Frame)
        ensures
            frame.shows(self@),
            self@.on_perimeter(),
    {
        proof {
            use_type_invariant(self);
        }
        self.frame
    }
}

} // verus!
