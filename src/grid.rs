//! The 6 x 7 grid shared by both game variants: gravity placement,
//! removal, and the 4-cell lines that win detection and scoring read.
use vstd::arithmetic::div_mod::{lemma_fundamental_div_mod, lemma_fundamental_div_mod_converse};
use vstd::prelude::*;

verus! {

/// Number of rows; row 0 is the top.
pub const ROWS: usize = 6;

/// Number of columns.
pub const COLS: usize = 7;

/// What `top_row` reports for a column with no free cell.
pub const FULL_COLUMN: usize = 10;

/// Number of line directions scanned from each origin.
pub const DIRECTIONS: usize = 4;

/// Number of (origin, direction) lines: every cell is an origin of four lines.
pub const LINE_COUNT: usize = 168;

/// A grid of cells, indexed `[row][column]`.
pub type Board<T> = [[Option<T>; 7]; 6];

/// The grid as a sequence of rows, each a sequence of cells.
pub open spec fn grid_view<T>(b: &Board<T>) -> Seq<Seq<Option<T>>> {
    Seq::new(6, |r: int| b@[r]@)
}

/// A model grid with 6 rows of 7 cells.
pub open spec fn shaped<T>(g: Seq<Seq<Option<T>>>) -> bool {
    &&& g.len() == 6
    &&& forall|r: int| 0 <= r < 6 ==> #[trigger] g[r].len() == 7
}

/// The grid with every cell empty.
pub open spec fn empty_grid<T>() -> Seq<Seq<Option<T>>> {
    Seq::new(6, |r: int| Seq::new(7, |c: int| None::<T>))
}

/// Gravity: an occupied cell has an occupied cell below it (row `r + 1`).
pub open spec fn gravity<T>(g: Seq<Seq<Option<T>>>) -> bool {
    forall|r: int, c: int|
        0 <= r < 5 && 0 <= c < 7 && #[trigger] g[r][c] is Some ==> g[r + 1][c] is Some
}

/// A shaped grid that obeys gravity.
pub open spec fn well_formed<T>(g: Seq<Seq<Option<T>>>) -> bool {
    shaped(g) && gravity(g)
}

/// The grid with cell `(r, c)` set to `v`.
pub open spec fn set_cell<T>(g: Seq<Seq<Option<T>>>, r: int, c: int, v: Option<T>) -> Seq<
    Seq<Option<T>>,
> {
    g.update(r, g[r].update(c, v))
}

/// Scanning column `c` upward from row `r`, the first empty row.
pub open spec fn landing_from<T>(g: Seq<Seq<Option<T>>>, c: int, r: int) -> Option<int>
    decreases r + 1,
{
    if r < 0 {
        None
    } else if g[r][c] is None {
        Some(r)
    } else {
        landing_from(g, c, r - 1)
    }
}

/// The row a piece dropped into column `c` lands in: the lowest empty row,
/// or `None` when the column has no empty cell.
pub open spec fn landing_row<T>(g: Seq<Seq<Option<T>>>, c: int) -> Option<int> {
    landing_from(g, c, 5)
}

/// The grid after dropping `p` into column `c` (unchanged when the column is full).
pub open spec fn dropped<T>(g: Seq<Seq<Option<T>>>, c: int, p: T) -> Seq<Seq<Option<T>>> {
    match landing_row(g, c) {
        Some(r) => set_cell(g, r, c, Some(p)),
        None => g,
    }
}

/// Every cell is occupied.
pub open spec fn is_full<T>(g: Seq<Seq<Option<T>>>) -> bool {
    forall|r: int, c: int| 0 <= r < 6 && 0 <= c < 7 ==> #[trigger] g[r][c] is Some
}

/// Row step of direction `d`: right, down, down-right, up-right.
pub open spec fn row_step(d: int) -> int {
    if d == 0 {
        0
    } else if d == 3 {
        -1
    } else {
        1
    }
}

/// Column step of direction `d`: right, down, down-right, up-right.
pub open spec fn col_step(d: int) -> int {
    if d == 1 {
        0
    } else {
        1
    }
}

/// Cell `k` of the line from origin `(r, c)` in direction `d`; absent off the grid.
pub open spec fn line_cell<T>(g: Seq<Seq<Option<T>>>, r: int, c: int, d: int, k: int) -> Option<T> {
    let rr = r + row_step(d) * k;
    let cc = c + col_step(d) * k;
    if 0 <= rr < 6 && 0 <= cc < 7 {
        g[rr][cc]
    } else {
        None
    }
}

/// The four cells of the line from origin `(r, c)` in direction `d`.
pub open spec fn line<T>(g: Seq<Seq<Option<T>>>, r: int, c: int, d: int) -> Seq<Option<T>> {
    seq![line_cell(g, r, c, d, 0), line_cell(g, r, c, d, 1), line_cell(g, r, c, d, 2), line_cell(g, r, c, d, 3)]
}

/// Line number `i` in scan order: origins row by row, left to right, and
/// from each origin the directions right, down, down-right, up-right.
pub open spec fn line_at<T>(g: Seq<Seq<Option<T>>>, i: int) -> Seq<Option<T>> {
    line(g, i / 28, (i % 28) / 4, i % 4)
}

/// Column `c` can take another piece.
pub open spec fn is_open<T>(g: Seq<Seq<Option<T>>>, c: int) -> bool {
    landing_row(g, c) is Some
}

/// Number of open columns among columns `c..7`.
pub open spec fn open_count_from<T>(g: Seq<Seq<Option<T>>>, c: int) -> int
    decreases 7 - c,
{
    if c >= 7 {
        0
    } else if is_open(g, c) {
        1 + open_count_from(g, c + 1)
    } else {
        open_count_from(g, c + 1)
    }
}

/// Number of open columns.
pub open spec fn open_count<T>(g: Seq<Seq<Option<T>>>) -> int {
    open_count_from(g, 0)
}

/// The open column with index `k` among the open columns of `c..7`, in
/// ascending order (7 when there are not that many).
pub open spec fn nth_open_from<T>(g: Seq<Seq<Option<T>>>, c: int, k: int) -> int
    decreases 7 - c,
{
    if c >= 7 {
        7
    } else if is_open(g, c) {
        if k == 0 {
            c
        } else {
            nth_open_from(g, c + 1, k - 1)
        }
    } else {
        nth_open_from(g, c + 1, k)
    }
}

/// The open column with index `k` among all open columns, in ascending order.
pub open spec fn nth_open<T>(g: Seq<Seq<Option<T>>>, k: int) -> int {
    nth_open_from(g, 0, k)
}

/// Two grid values with the same model are the same value.
pub proof fn lemma_view_injective<T>(a: &Board<T>, b: &Board<T>)
    requires
        grid_view(a) == grid_view(b),
    ensures
        *a == *b,
{
    assert forall|r: int| 0 <= r < 6 implies a[r] == b[r] by {
        assert(grid_view(a)[r] == grid_view(b)[r]);
        assert(a[r] =~= b[r]);
    }
    assert(*a =~= *b);
}

/// The landing row, when there is one, is empty and every row below it is occupied.
pub proof fn lemma_landing_from<T>(g: Seq<Seq<Option<T>>>, c: int, r: int)
    requires
        shaped(g),
        0 <= c < 7,
        r < 6,
    ensures
        match landing_from(g, c, r) {
            Some(x) => 0 <= x <= r && g[x][c] is None && forall|y: int|
                x < y <= r ==> #[trigger] g[y][c] is Some,
            None => forall|y: int| 0 <= y <= r ==> #[trigger] g[y][c] is Some,
        },
    decreases r + 1,
{
    if r >= 0 && g[r][c] is Some {
        lemma_landing_from(g, c, r - 1);
    }
}

/// A column whose cell in row `y` is empty has a landing row at or below `y`.
pub proof fn lemma_empty_cell_open<T>(g: Seq<Seq<Option<T>>>, c: int, y: int)
    requires
        shaped(g),
        0 <= c < 7,
        0 <= y < 6,
        g[y][c] is None,
    ensures
        is_open(g, c),
{
    lemma_landing_from(g, c, 5);
}

/// Under gravity a column is open exactly when its top cell is empty.
pub proof fn lemma_open_iff_top_empty<T>(g: Seq<Seq<Option<T>>>, c: int)
    requires
        well_formed(g),
        0 <= c < 7,
    ensures
        is_open(g, c) <==> g[0][c] is None,
{
    lemma_landing_from(g, c, 5);
    if g[0][c] is Some {
        assert forall|y: int| 0 <= y <= 5 implies #[trigger] g[y][c] is Some by {
            lemma_column_settled(g, c, y);
        }
    } else {
        lemma_empty_cell_open(g, c, 0);
    }
}

/// Under gravity, an occupied top cell means every cell of the column down to
/// row `y` is occupied.
proof fn lemma_column_settled<T>(g: Seq<Seq<Option<T>>>, c: int, y: int)
    requires
        well_formed(g),
        0 <= c < 7,
        0 <= y < 6,
        g[0][c] is Some,
    ensures
        g[y][c] is Some,
    decreases y,
{
    if y > 0 {
        lemma_column_settled(g, c, y - 1);
    }
}

/// Dropping a piece keeps the grid well formed.
pub proof fn lemma_drop_keeps_gravity<T>(g: Seq<Seq<Option<T>>>, c: int, p: T)
    requires
        well_formed(g),
        0 <= c < 7,
    ensures
        well_formed(dropped(g, c, p)),
{
    lemma_landing_from(g, c, 5);
    if let Some(x) = landing_row(g, c) {
        let h = dropped(g, c, p);
        assert forall|r: int| 0 <= r < 6 implies #[trigger] h[r].len() == 7 by {}
        assert forall|r: int, cc: int|
            0 <= r < 5 && 0 <= cc < 7 && #[trigger] h[r][cc] is Some implies h[r + 1][cc] is Some by {
            if cc == c && r + 1 == x {
                assert(g[r][c] is Some);
            }
        }
    }
}

/// Clearing the topmost piece of a column keeps the grid well formed.
pub proof fn lemma_clear_top_keeps_gravity<T>(g: Seq<Seq<Option<T>>>, r: int, c: int)
    requires
        well_formed(g),
        0 <= r < 6,
        0 <= c < 7,
        r == 0 || g[r - 1][c] is None,
    ensures
        well_formed(set_cell(g, r, c, None)),
{
    let h = set_cell(g, r, c, None);
    assert forall|y: int| 0 <= y < 6 implies #[trigger] h[y].len() == 7 by {}
    assert forall|y: int, cc: int|
        0 <= y < 5 && 0 <= cc < 7 && #[trigger] h[y][cc] is Some implies h[y + 1][cc] is Some by {
        if cc == c && y + 1 == r {
            assert(g[y][c] is None);
        }
    }
}

/// Dropping a piece and then clearing the cell it landed in gives back the
/// grid exactly as it was.
pub proof fn lemma_drop_then_clear<T>(g: Seq<Seq<Option<T>>>, c: int, p: T)
    requires
        shaped(g),
        0 <= c < 7,
        is_open(g, c),
    ensures
        set_cell(dropped(g, c, p), landing_row(g, c)->0, c, None) == g,
{
    lemma_landing_from(g, c, 5);
    let x = landing_row(g, c)->0;
    let h = set_cell(dropped(g, c, p), x, c, None);
    assert(h[x] =~= g[x]);
    assert(h =~= g);
}

/// The next piece in column `col` lands in the returned row, or
/// `FULL_COLUMN` when the column is full.
pub fn top_row<T: Copy>(b: &Board<T>, col: usize) -> (r: usize)
    requires
        col < COLS,
    ensures
        landing_row(grid_view(b), col as int) == (if r == FULL_COLUMN {
            None
        } else {
            Some(r as int)
        }),
{
    let ghost g = grid_view(b);
    let mut row: usize = ROWS;
    while row > 0
        invariant
            row <= 6,
            col < 7,
            g == grid_view(b),
            landing_row(g, col as int) == landing_from(g, col as int, row - 1),
        decreases row,
    {
        row = row - 1;
        assert(g[row as int][col as int] == b[row as int][col as int]);
        if b[row][col].is_none() {
            return row;
        }
    }
    FULL_COLUMN
}

/// Drops `piece` into column `col`: it lands in the lowest empty row, which
/// is returned. A full column is left as it is and `None` is returned.
pub fn place<T: Copy>(b: &mut Board<T>, col: usize, piece: T) -> (r: Option<usize>)
    requires
        col < COLS,
    ensures
        r == (match landing_row(grid_view(old(b)), col as int) {
            Some(x) => Some(x as usize),
            None => None,
        }),
        grid_view(final(b)) == dropped(grid_view(old(b)), col as int, piece),
        well_formed(grid_view(old(b))) ==> well_formed(grid_view(final(b))),
{
    let ghost g = grid_view(b);
    proof {
        lemma_landing_from(g, col as int, 5);
        if well_formed(g) {
            lemma_drop_keeps_gravity(g, col as int, piece);
        }
    }
    let row = top_row(b, col);
    if row == FULL_COLUMN {
        return None;
    }
    b[row][col] = Some(piece);
    assert(grid_view(b)[row as int] =~= g[row as int].update(col as int, Some(piece)));
    assert(grid_view(b) =~= dropped(g, col as int, piece));
    Some(row)
}

/// Sets cell `(row, col)` to `v`.
pub fn write_cell<T: Copy>(b: &mut Board<T>, row: usize, col: usize, v: Option<T>)
    requires
        row < ROWS,
        col < COLS,
    ensures
        grid_view(final(b)) == set_cell(grid_view(old(b)), row as int, col as int, v),
{
    let ghost g = grid_view(b);
    b[row][col] = v;
    assert(grid_view(b)[row as int] =~= g[row as int].update(col as int, v));
    assert(grid_view(b) =~= set_cell(g, row as int, col as int, v));
}

/// Cell `k` of the line from origin `(r, c)` in direction `d`, or `None` off the grid.
fn line_cell_at<T: Copy>(b: &Board<T>, r: usize, c: usize, d: usize, k: usize) -> (o: Option<T>)
    requires
        r < ROWS,
        c < COLS,
        d < DIRECTIONS,
        k < 4,
    ensures
        o == line_cell(grid_view(b), r as int, c as int, d as int, k as int),
{
    let rr: usize = if d == 0 {
        r
    } else if d == 3 {
        if k > r {
            return None;
        }
        r - k
    } else {
        r + k
    };
    let cc: usize = if d == 1 {
        c
    } else {
        c + k
    };
    if rr < ROWS && cc < COLS {
        b[rr][cc]
    } else {
        None
    }
}

/// The four cells of line number `i` in scan order (see `line_at`).
pub fn line_at_index<T: Copy>(b: &Board<T>, i: usize) -> (l: [Option<T>; 4])
    requires
        i < LINE_COUNT,
    ensures
        l@ == line_at(grid_view(b), i as int),
{
    let r = i / 28;
    let c = (i % 28) / 4;
    let d = i % 4;
    let l = [
        line_cell_at(b, r, c, d, 0),
        line_cell_at(b, r, c, d, 1),
        line_cell_at(b, r, c, d, 2),
        line_cell_at(b, r, c, d, 3),
    ];
    assert(l@ =~= line_at(grid_view(b), i as int));
    l
}

/// Whether every cell is occupied.
pub fn full<T: Copy>(b: &Board<T>) -> (r: bool)
    ensures
        r == is_full(grid_view(b)),
{
    let mut row: usize = 0;
    while row < ROWS
        invariant
            row <= 6,
            forall|y: int, c: int|
                0 <= y < row && 0 <= c < 7 ==> #[trigger] grid_view(b)[y][c] is Some,
        decreases 6 - row,
    {
        let mut col: usize = 0;
        while col < COLS
            invariant
                row < 6,
                col <= 7,
                forall|y: int, c: int|
                    0 <= y < row && 0 <= c < 7 ==> #[trigger] grid_view(b)[y][c] is Some,
                forall|c: int| 0 <= c < col ==> #[trigger] grid_view(b)[row as int][c] is Some,
            decreases 7 - col,
        {
            if b[row][col].is_none() {
                assert(grid_view(b)[row as int][col as int] is None);
                return false;
            }
            col = col + 1;
        }
        row = row + 1;
    }
    true
}

/// At most `7 - c` of the columns `c..7` are open.
pub proof fn lemma_open_count_bound<T>(g: Seq<Seq<Option<T>>>, c: int)
    requires
        0 <= c <= 7,
    ensures
        0 <= open_count_from(g, c) <= 7 - c,
    decreases 7 - c,
{
    if c < 7 {
        lemma_open_count_bound(g, c + 1);
    }
}

/// Index `k` below the number of open columns of `c..7` picks an open column of `c..7`.
pub proof fn lemma_nth_open<T>(g: Seq<Seq<Option<T>>>, c: int, k: int)
    requires
        0 <= c <= 7,
        0 <= k < open_count_from(g, c),
    ensures
        c <= nth_open_from(g, c, k) < 7,
        is_open(g, nth_open_from(g, c, k)),
    decreases 7 - c,
{
    if c < 7 {
        if !(is_open(g, c) && k == 0) {
            if is_open(g, c) {
                lemma_nth_open(g, c + 1, k - 1);
            } else {
                lemma_nth_open(g, c + 1, k);
            }
        }
    }
}

/// A grid that is not full has an open column.
pub proof fn lemma_not_full_has_open<T>(g: Seq<Seq<Option<T>>>)
    requires
        shaped(g),
        !is_full(g),
    ensures
        open_count(g) > 0,
{
    let (r, c) = choose|r: int, c: int| 0 <= r < 6 && 0 <= c < 7 && !(#[trigger] g[r][c] is Some);
    lemma_empty_cell_open(g, c, r);
    lemma_open_count_positive(g, 0, c);
}

/// An open column at or after `c` makes the open count of `c..7` positive.
proof fn lemma_open_count_positive<T>(g: Seq<Seq<Option<T>>>, c: int, o: int)
    requires
        0 <= c <= o < 7,
        is_open(g, o),
    ensures
        open_count_from(g, c) > 0,
    decreases o - c,
{
    lemma_open_count_bound(g, c + 1);
    if c < o {
        lemma_open_count_positive(g, c + 1, o);
    }
}

/// Number of columns that can take another piece.
pub fn open_column_count<T: Copy>(b: &Board<T>) -> (n: usize)
    ensures
        n == open_count(grid_view(b)),
        n <= COLS,
{
    let ghost g = grid_view(b);
    let mut n: usize = 0;
    let mut col: usize = 0;
    while col < COLS
        invariant
            col <= 7,
            g == grid_view(b),
            n <= col,
            open_count(g) == n + open_count_from(g, col as int),
        decreases 7 - col,
    {
        if top_row(b, col) != FULL_COLUMN {
            n = n + 1;
        }
        col = col + 1;
    }
    n
}

/// The open column with index `k` among the open columns, in ascending order.
pub fn nth_open_column<T: Copy>(b: &Board<T>, k: usize) -> (c: usize)
    requires
        k < open_count(grid_view(b)),
    ensures
        c == nth_open(grid_view(b), k as int),
        c < COLS,
        is_open(grid_view(b), c as int),
{
    let ghost g = grid_view(b);
    proof {
        lemma_nth_open(g, 0, k as int);
    }
    let mut left: usize = k;
    let mut col: usize = 0;
    while col < COLS
        invariant
            col <= 7,
            g == grid_view(b),
            0 <= left < open_count_from(g, col as int),
            nth_open(g, k as int) == nth_open_from(g, col as int, left as int),
        decreases 7 - col,
    {
        if top_row(b, col) != FULL_COLUMN {
            if left == 0 {
                proof {
                    lemma_nth_open(g, col as int, 0);
                }
                return col;
            }
            left = left - 1;
        }
        col = col + 1;
    }
    col
}

/// Line numbers and (origin, direction) triples correspond one to one.
pub proof fn lemma_line_index(r: int, c: int, d: int)
    requires
        0 <= r < 6,
        0 <= c < 7,
        0 <= d < 4,
    ensures
        0 <= 28 * r + 4 * c + d < 168,
        (28 * r + 4 * c + d) / 28 == r,
        ((28 * r + 4 * c + d) % 28) / 4 == c,
        (28 * r + 4 * c + d) % 4 == d,
{
    let j = 28 * r + 4 * c + d;
    lemma_fundamental_div_mod_converse(j, 28, r, 4 * c + d);
    lemma_fundamental_div_mod_converse(4 * c + d, 4, c, d);
    lemma_fundamental_div_mod_converse(j, 4, 7 * r + c, d);
}

/// Line number `j` names an origin on the grid and one of the four directions.
pub proof fn lemma_line_index_bounds(j: int)
    requires
        0 <= j < 168,
    ensures
        0 <= j / 28 < 6,
        0 <= (j % 28) / 4 < 7,
        0 <= j % 4 < 4,
{
    lemma_fundamental_div_mod(j, 28);
    lemma_fundamental_div_mod(j % 28, 4);
    lemma_fundamental_div_mod(j, 4);
}

/// Under gravity the grid is full exactly when no column can take a piece.
pub proof fn lemma_full_iff_no_open_column<T>(g: Seq<Seq<Option<T>>>)
    requires
        well_formed(g),
    ensures
        is_full(g) <==> forall|c: int| 0 <= c < 7 ==> !#[trigger] is_open(g, c),
{
    if is_full(g) {
        assert forall|c: int| 0 <= c < 7 implies !#[trigger] is_open(g, c) by {
            lemma_landing_from(g, c, 5);
        }
    }
    if forall|c: int| 0 <= c < 7 ==> !#[trigger] is_open(g, c) {
        assert forall|r: int, c: int| 0 <= r < 6 && 0 <= c < 7 implies #[trigger] g[r][c] is Some by {
            assert(!is_open(g, c));
            lemma_landing_from(g, c, 5);
        }
    }
}

} // verus!
