//! The braille throughput graph. A character cell holds two by four dots; a line is
//! drawn through one height per dot column and connected between columns, and each
//! cell remembers which of the two series passed through it.

use vstd::prelude::*;

verus! {

/// The code point of the braille cell without dots.
pub const BLANK: u32 = 0x2800;

/// The bit of the dot in a given row and column of a braille cell.
pub open spec fn dot(row: int, column: int) -> u16 {
    if column == 0 {
        if row == 0 {
            0x01
        } else if row == 1 {
            0x02
        } else if row == 2 {
            0x04
        } else {
            0x40
        }
    } else {
        if row == 0 {
            0x08
        } else if row == 1 {
            0x10
        } else if row == 2 {
            0x20
        } else {
            0x80
        }
    }
}

fn dot_bit(row: usize, column: usize) -> (bit: u16)
    requires
        row < 4,
        column < 2,
    ensures
        bit == dot(row as int, column as int),
{
    match (row, column) {
        (0, 0) => 0x01,
        (1, 0) => 0x02,
        (2, 0) => 0x04,
        (_, 0) => 0x40,
        (0, _) => 0x08,
        (1, _) => 0x10,
        (2, _) => 0x20,
        _ => 0x80,
    }
}

/// One braille cell: its dots, and which series passed through it.
#[derive(Clone, Copy, PartialEq, Eq, Structural, Debug)]
pub struct GraphCell {
    pub bits: u16,
    pub tx: bool,
    pub rx: bool,
}

/// Which series a cell belongs to.
#[derive(Clone, Copy, PartialEq, Eq, Structural, Debug)]
pub enum Series {
    Tx,
    Rx,
    Both,
}

/// Whether a cell's dot is set.
pub open spec fn is_lit(bits: u16, row: int, column: int) -> bool {
    bits & dot(row, column) != 0
}

/// The place of a dot's cell in a grid `width` cells wide.
pub open spec fn cell_of(width: int, x: int, y: int) -> int {
    (y / 4) * width + x / 2
}

/// Whether the dot at column `x` and row `y` of a grid is set.
pub open spec fn pixel(cells: Seq<GraphCell>, width: int, x: int, y: int) -> bool {
    is_lit(cells[cell_of(width, x, y)].bits, y % 4, x % 2)
}

/// Whether a dot lies in a grid of this many cells.
pub open spec fn in_grid(width: int, height: int, x: int, y: int) -> bool {
    0 <= x < 2 * width && 0 <= y < 4 * height
}

proof fn lemma_set_dot(bits: u16, row: int, column: int, other_row: int, other_column: int)
    requires
        0 <= row < 4,
        0 <= column < 2,
        0 <= other_row < 4,
        0 <= other_column < 2,
    ensures
        is_lit(bits | dot(row, column), other_row, other_column) <==> is_lit(
            bits,
            other_row,
            other_column,
        ) || (row == other_row && column == other_column),
{
    let (a, b) = (dot(row, column), dot(other_row, other_column));
    assert((bits | a) & b != 0 <==> (bits & b != 0 || a == b)) by (bit_vector)
        requires
            a == 0x01 || a == 0x02 || a == 0x04 || a == 0x40 || a == 0x08 || a == 0x10 || a == 0x20
                || a == 0x80,
            b == 0x01 || b == 0x02 || b == 0x04 || b == 0x40 || b == 0x08 || b == 0x10 || b == 0x20
                || b == 0x80,
    ;
}

proof fn lemma_dots_fit(bits: u16, row: int, column: int)
    requires
        bits < 0x100,
    ensures
        bits | dot(row, column) < 0x100,
{
    let d = dot(row, column);
    assert(bits | d < 0x100) by (bit_vector)
        requires
            bits < 0x100,
            d == 0x01 || d == 0x02 || d == 0x04 || d == 0x40 || d == 0x08 || d == 0x10 || d == 0x20
                || d == 0x80,
    ;
}

proof fn lemma_cell_in_grid(width: int, height: int, x: int, y: int)
    requires
        in_grid(width, height, x, y),
    ensures
        0 <= cell_of(width, x, y) < width * height,
        0 <= (y / 4) * width,
{
    let (row, column) = (y / 4, x / 2);
    assert(0 <= row * width && row * width + column < width * height) by (nonlinear_arith)
        requires
            0 <= row < height,
            0 <= column < width,
    ;
}

proof fn lemma_cell_is_unique(width: int, height: int, x: int, y: int, x2: int, y2: int)
    requires
        in_grid(width, height, x, y),
        in_grid(width, height, x2, y2),
        cell_of(width, x, y) == cell_of(width, x2, y2),
    ensures
        x / 2 == x2 / 2,
        y / 4 == y2 / 4,
{
    let (r, c, r2, c2) = (y / 4, x / 2, y2 / 4, x2 / 2);
    assert(r == r2) by (nonlinear_arith)
        requires
            0 <= c < width,
            0 <= c2 < width,
            r * width + c == r2 * width + c2,
    ;
}

/// `count` cells without dots.
pub fn blank_cells(count: usize) -> (cells: Vec<GraphCell>)
    ensures
        cells@ == Seq::new(count as nat, |i: int| GraphCell { bits: 0, tx: false, rx: false }),
{
    let mut cells: Vec<GraphCell> = Vec::with_capacity(count);
    let mut i: usize = 0;
    while i < count
        invariant
            i <= count,
            cells@ == Seq::new(i as nat, |i: int| GraphCell { bits: 0, tx: false, rx: false }),
        decreases count - i,
    {
        cells.push(GraphCell { bits: 0, tx: false, rx: false });
        i += 1;
    }
    cells
}

/// Whether one series' mark moved from `before` to `after` by marking the cells in
/// `marked`, and the other's stayed.
pub open spec fn marks(before: GraphCell, after: GraphCell, is_tx: bool, marked: bool) -> bool {
    &&& after.tx == (before.tx || (is_tx && marked))
    &&& after.rx == (before.rx || (!is_tx && marked))
}

/// Set the dot at column `x` and row `y`.
fn light(cells: &mut Vec<GraphCell>, width: usize, height: usize, x: usize, y: usize, is_tx: bool)
    requires
        old(cells)@.len() == width * height,
        in_grid(width as int, height as int, x as int, y as int),
    ensures
        final(cells)@.len() == old(cells)@.len(),
        forall|x2: int, y2: int|
            in_grid(width as int, height as int, x2, y2) ==> (#[trigger] pixel(
                final(cells)@,
                width as int,
                x2,
                y2,
            ) <==> pixel(old(cells)@, width as int, x2, y2) || (x2 == x && y2 == y)),
        forall|k: int|
            0 <= k < old(cells)@.len() ==> marks(
                old(cells)@[k],
                #[trigger] final(cells)@[k],
                is_tx,
                k == cell_of(width as int, x as int, y as int),
            ),
        forall|k: int|
            0 <= k < old(cells)@.len() && old(cells)@[k].bits < 0x100
                ==> (#[trigger] final(cells)@[k]).bits < 0x100,
{
    let count: usize = cells.len();
    proof {
        lemma_cell_in_grid(width as int, height as int, x as int, y as int);
        assert(cell_of(width as int, x as int, y as int) < count);
    }
    let k: usize = (y / 4) * width + x / 2;
    let mut cell = cells[k];
    cell.bits = cell.bits | dot_bit(y % 4, x % 2);
    if is_tx {
        cell.tx = true;
    } else {
        cell.rx = true;
    }
    cells.set(k, cell);
    proof {
        if old(cells)@[k as int].bits < 0x100 {
            lemma_dots_fit(old(cells)@[k as int].bits, y as int % 4, x as int % 2);
        }
        let (w, h) = (width as int, height as int);
        assert forall|x2: int, y2: int| in_grid(w, h, x2, y2) implies (#[trigger] pixel(
            cells@,
            w,
            x2,
            y2,
        ) <==> pixel(old(cells)@, w, x2, y2) || (x2 == x && y2 == y)) by {
            lemma_cell_in_grid(w, h, x2, y2);
            if cell_of(w, x2, y2) == k {
                lemma_cell_is_unique(w, h, x as int, y as int, x2, y2);
                lemma_set_dot(
                    old(cells)@[k as int].bits,
                    y as int % 4,
                    x as int % 2,
                    y2 % 4,
                    x2 % 2,
                );
            }
        }
    }
}

/// Whether a cell holds a dot of column `x` between rows `low` and `high`.
pub open spec fn column_meets(width: int, x: int, low: int, high: int, cell: int) -> bool {
    exists|y: int| low <= y <= high && #[trigger] cell_of(width, x, y) == cell
}

/// Set the dots of column `x` from row `low` to row `high`.
fn draw_column(
    cells: &mut Vec<GraphCell>,
    width: usize,
    height: usize,
    x: usize,
    low: usize,
    high: usize,
    is_tx: bool,
)
    requires
        old(cells)@.len() == width * height,
        x < 2 * width,
        low <= high < 4 * height <= usize::MAX,
    ensures
        final(cells)@.len() == old(cells)@.len(),
        forall|x2: int, y2: int|
            in_grid(width as int, height as int, x2, y2) ==> (#[trigger] pixel(
                final(cells)@,
                width as int,
                x2,
                y2,
            ) <==> pixel(old(cells)@, width as int, x2, y2) || (x2 == x && low <= y2 <= high)),
        forall|k: int|
            0 <= k < old(cells)@.len() ==> marks(
                old(cells)@[k],
                #[trigger] final(cells)@[k],
                is_tx,
                column_meets(width as int, x as int, low as int, high as int, k),
            ),
        forall|k: int|
            0 <= k < old(cells)@.len() && old(cells)@[k].bits < 0x100
                ==> (#[trigger] final(cells)@[k]).bits < 0x100,
{
    let mut y: usize = low;
    while y <= high
        invariant
            low <= y <= high + 1,
            high < 4 * height <= usize::MAX,
            x < 2 * width,
            cells@.len() == width * height,
            cells@.len() == old(cells)@.len(),
            forall|x2: int, y2: int|
                in_grid(width as int, height as int, x2, y2) ==> (#[trigger] pixel(
                    cells@,
                    width as int,
                    x2,
                    y2,
                ) <==> pixel(old(cells)@, width as int, x2, y2) || (x2 == x && low <= y2 < y)),
            forall|k: int|
                0 <= k < cells@.len() ==> marks(
                    old(cells)@[k],
                    #[trigger] cells@[k],
                    is_tx,
                    column_meets(width as int, x as int, low as int, y - 1, k),
                ),
            forall|k: int|
                0 <= k < cells@.len() && old(cells)@[k].bits < 0x100
                    ==> (#[trigger] cells@[k]).bits < 0x100,
        decreases high + 1 - y,
    {
        let ghost before = cells@;
        light(cells, width, height, x, y, is_tx);
        proof {
            let w = width as int;
            assert forall|k: int| 0 <= k < cells@.len() implies marks(
                old(cells)@[k],
                #[trigger] cells@[k],
                is_tx,
                column_meets(w, x as int, low as int, y as int, k),
            ) by {
                assert(marks(before[k], cells@[k], is_tx, k == cell_of(w, x as int, y as int)));
                let earlier = column_meets(w, x as int, low as int, y - 1, k);
                assert(column_meets(w, x as int, low as int, y as int, k) <==> earlier || k
                    == cell_of(w, x as int, y as int));
            }
        }
        y += 1;
    }
}

/// Where the line stands at the left edge of column `x`: at the height of the column
/// before, or of the first column itself.
pub open spec fn start_of(heights: Seq<usize>, x: int) -> int {
    if x > 0 {
        heights[x - 1] as int
    } else {
        heights[x] as int
    }
}

/// Whether the line through `heights` covers the dot at column `x` and row `y`: it
/// runs straight up or down from where it stands to the column's own height.
pub open spec fn on_line(heights: Seq<usize>, x: int, y: int) -> bool {
    let (from, to) = (start_of(heights, x), heights[x] as int);
    0 <= x < heights.len() && (from <= y <= to || to <= y <= from)
}

/// Whether the line, drawn up to column `done`, passes through a cell.
pub open spec fn line_meets(heights: Seq<usize>, width: int, done: int, cell: int) -> bool {
    exists|x: int, y: int|
        x < done && #[trigger] on_line(heights, x, y) && cell_of(width, x, y) == cell
}

/// Draw one series into a grid of `width` by `height` cells, a height per column of
/// dots (row 0 is the top), connecting each column to the one before.
pub fn plot(
    cells: &mut Vec<GraphCell>,
    width: usize,
    height: usize,
    heights: &[usize],
    is_tx: bool,
)
    requires
        old(cells)@.len() == width * height,
        heights@.len() <= 2 * width,
        4 * height <= usize::MAX,
        forall|i: int| 0 <= i < heights@.len() ==> #[trigger] heights@[i] < 4 * height,
    ensures
        final(cells)@.len() == old(cells)@.len(),
        forall|x: int, y: int|
            in_grid(width as int, height as int, x, y) ==> (#[trigger] pixel(
                final(cells)@,
                width as int,
                x,
                y,
            ) <==> pixel(old(cells)@, width as int, x, y) || on_line(heights@, x, y)),
        forall|k: int|
            0 <= k < old(cells)@.len() ==> marks(
                old(cells)@[k],
                #[trigger] final(cells)@[k],
                is_tx,
                line_meets(heights@, width as int, heights@.len() as int, k),
            ),
        forall|k: int|
            0 <= k < old(cells)@.len() && old(cells)@[k].bits < 0x100
                ==> (#[trigger] final(cells)@[k]).bits < 0x100,
{
    let mut x: usize = 0;
    while x < heights.len()
        invariant
            x <= heights@.len() <= 2 * width,
            4 * height <= usize::MAX,
            cells@.len() == width * height,
            cells@.len() == old(cells)@.len(),
            forall|i: int| 0 <= i < heights@.len() ==> #[trigger] heights@[i] < 4 * height,
            forall|x2: int, y2: int|
                in_grid(width as int, height as int, x2, y2) ==> (#[trigger] pixel(
                    cells@,
                    width as int,
                    x2,
                    y2,
                ) <==> pixel(old(cells)@, width as int, x2, y2) || (x2 < x && on_line(
                    heights@,
                    x2,
                    y2,
                ))),
            forall|k: int|
                0 <= k < cells@.len() ==> marks(
                    old(cells)@[k],
                    #[trigger] cells@[k],
                    is_tx,
                    line_meets(heights@, width as int, x as int, k),
                ),
            forall|k: int|
                0 <= k < cells@.len() && old(cells)@[k].bits < 0x100
                    ==> (#[trigger] cells@[k]).bits < 0x100,
        decreases heights@.len() - x,
    {
        let ghost before = cells@;
        let to: usize = heights[x];
        let from: usize = if x > 0 {
            heights[x - 1]
        } else {
            to
        };
        let (low, high) = if from <= to {
            (from, to)
        } else {
            (to, from)
        };
        draw_column(cells, width, height, x, low, high, is_tx);
        proof {
            let w = width as int;
            assert forall|y: int| on_line(heights@, x as int, y) <==> low <= y <= high by {}
            assert forall|k: int| 0 <= k < cells@.len() implies marks(
                old(cells)@[k],
                #[trigger] cells@[k],
                is_tx,
                line_meets(heights@, w, x + 1, k),
            ) by {
                assert(marks(
                    before[k],
                    cells@[k],
                    is_tx,
                    column_meets(w, x as int, low as int, high as int, k),
                ));
                lemma_line_grows(heights@, w, x as int, low as int, high as int, k);
            }
        }
        x += 1;
    }
}

proof fn lemma_line_grows(heights: Seq<usize>, width: int, x: int, low: int, high: int, cell: int)
    requires
        forall|y: int| #[trigger] on_line(heights, x, y) <==> low <= y <= high,
    ensures
        line_meets(heights, width, x + 1, cell) <==> line_meets(heights, width, x, cell)
            || column_meets(width, x, low, high, cell),
{
    if line_meets(heights, width, x + 1, cell) {
        let (x2, y2) = choose|x2: int, y2: int|
            x2 < x + 1 && #[trigger] on_line(heights, x2, y2) && cell_of(width, x2, y2) == cell;
        if x2 == x {
            assert(cell_of(width, x, y2) == cell);
        } else {
            assert(on_line(heights, x2, y2));
        }
    }
    if column_meets(width, x, low, high, cell) {
        let y = choose|y: int| low <= y <= high && #[trigger] cell_of(width, x, y) == cell;
        assert(on_line(heights, x, y));
    }
}

/// What a cell shows.
pub open spec fn shown(cell: GraphCell) -> Option<(u32, Series)> {
    if cell.bits == 0 || !(cell.tx || cell.rx) {
        None
    } else if cell.tx && cell.rx {
        Some((BLANK | cell.bits as u32, Series::Both))
    } else if cell.tx {
        Some((BLANK | cell.bits as u32, Series::Tx))
    } else {
        Some((BLANK | cell.bits as u32, Series::Rx))
    }
}

/// How a cell is shown: the code point of its dots and whose they are. `None` for a
/// cell that nothing passed through.
pub fn glyph(cell: GraphCell) -> (glyph: Option<(u32, Series)>)
    ensures
        glyph == shown(cell),
        glyph == if cell.bits == 0 || !(cell.tx || cell.rx) {
            None
        } else {
            Some(
                (
                    BLANK | cell.bits as u32,
                    if cell.tx && cell.rx {
                        Series::Both
                    } else if cell.tx {
                        Series::Tx
                    } else {
                        Series::Rx
                    },
                ),
            )
        },
{
    if cell.bits == 0 {
        return None;
    }
    let series = match (cell.tx, cell.rx) {
        (true, true) => Series::Both,
        (true, false) => Series::Tx,
        (false, true) => Series::Rx,
        (false, false) => return None,
    };
    Some((BLANK | cell.bits as u32, series))
}

/// A line has no gaps: every column shows its own height, each column starts at the
/// row where the one before ended, and within a column the dots are unbroken.
pub proof fn lines_have_no_gaps(heights: Seq<usize>, x: int)
    requires
        0 <= x < heights.len(),
    ensures
        on_line(heights, x, heights[x] as int),
        x > 0 ==> on_line(heights, x, heights[x - 1] as int) && on_line(
            heights,
            x - 1,
            heights[x - 1] as int,
        ),
        forall|low: int, high: int, y: int|
            #![trigger on_line(heights, x, low), on_line(heights, x, high), on_line(heights, x, y)]
            on_line(heights, x, low) && on_line(heights, x, high) && low <= y <= high ==> on_line(
                heights,
                x,
                y,
            ),
{
}

/// A cell that holds nothing but braille dots is shown by a braille pattern. Blank cells
/// are such, and drawing keeps them so.
pub proof fn cells_are_shown_in_braille(cell: GraphCell)
    requires
        cell.bits < 0x100,
    ensures
        BLANK <= BLANK | cell.bits as u32 <= 0x28FF,
{
    let bits = cell.bits as u32;
    assert(0x2800u32 <= 0x2800u32 | bits && 0x2800u32 | bits <= 0x28FF) by (bit_vector)
        requires
            bits < 0x100,
    ;
}

/// The dots of a cell and their bits: down the left column, down the right one, and the
/// lowest row last.
pub proof fn dots_have_their_bits()
    ensures
        dot(0, 0) == 1,
        dot(1, 0) == 2,
        dot(2, 0) == 4,
        dot(0, 1) == 8,
        dot(1, 1) == 16,
        dot(2, 1) == 32,
        dot(3, 0) == 64,
        dot(3, 1) == 128,
{
}

/// A dot of the graph is a dot of one cell: cells are two dots wide and four high, and
/// follow one another line by line.
pub proof fn dots_are_those_of_their_cells(
    cells: Seq<GraphCell>,
    width: int,
    line: int,
    place: int,
    row: int,
    column: int,
)
    requires
        0 <= line,
        0 <= place < width,
        0 <= row < 4,
        0 <= column < 2,
    ensures
        pixel(cells, width, 2 * place + column, 4 * line + row) <==> cells[line * width
            + place].bits & dot(row, column) != 0,
{
    let (x, y) = (2 * place + column, 4 * line + row);
    assert(x / 2 == place && x % 2 == column && y / 4 == line && y % 4 == row);
}

/// A line covers, in its first column, the column's own height alone, in any other the
/// rows from the height before to its own, and nothing beyond its last column.
pub proof fn lines_cover_the_way_between_heights(heights: Seq<usize>, x: int, y: int)
    ensures
        x < 0 || x >= heights.len() ==> !on_line(heights, x, y),
        x == 0 && heights.len() > 0 ==> (on_line(heights, x, y) <==> y == heights[0]),
        0 < x < heights.len() && heights[x - 1] <= heights[x] ==> (on_line(heights, x, y)
            <==> heights[x - 1] <= y <= heights[x]),
        0 < x < heights.len() && heights[x - 1] > heights[x] ==> (on_line(heights, x, y)
            <==> heights[x] <= y <= heights[x - 1]),
{
}

/// A series marks the cells it passes through as its own and leaves the other's marks.
pub proof fn series_keep_to_themselves(before: GraphCell, after: GraphCell, marked: bool)
    ensures
        marks(before, after, true, marked) <==> after.rx == before.rx && after.tx == (before.tx
            || marked),
        marks(before, after, false, marked) <==> after.tx == before.tx && after.rx == (before.rx
            || marked),
{
}

/// A cell shows its dots, and whose they are; without dots or without an owner it shows
/// nothing.
pub proof fn cells_show_their_dots(cell: GraphCell)
    requires
        cell.bits < 0x100,
    ensures
        shown(cell) is None <==> cell.bits == 0 || (!cell.tx && !cell.rx),
        shown(cell) matches Some((code, series)) ==> {
            &&& code == 0x2800 + cell.bits
            &&& series == Series::Both <==> cell.tx && cell.rx
            &&& series == Series::Tx <==> cell.tx && !cell.rx
            &&& series == Series::Rx <==> !cell.tx && cell.rx
        },
{
    let bits = cell.bits as u32;
    assert(0x2800u32 | bits == 0x2800 + bits) by (bit_vector)
        requires
            bits < 0x100,
    ;
}

} // verus!
