//! Four-in-a-row: each side drops its own colour, and four equal pieces in
//! a line win.
use vstd::prelude::*;

use crate::grid::{
    dropped, empty_grid, grid_view, is_full, is_open, landing_row,
    lemma_clear_top_keeps_gravity, lemma_drop_then_clear, lemma_empty_cell_open,
    lemma_landing_from, lemma_line_index, lemma_line_index_bounds, lemma_not_full_has_open,
    lemma_nth_open, lemma_open_iff_top_empty, lemma_view_injective, line, line_at, nth_open,
    set_cell, well_formed, Board, COLS, LINE_COUNT, ROWS,
};
use crate::random::random_below;

verus! {

/// Score of a line holding four pieces of one colour.
pub const WIN_WEIGHT: i32 = 50000;

/// Score of a line holding three pieces of one colour and one empty cell.
pub const THREE_WEIGHT: i32 = 1000;

/// Score of a line holding two pieces of one colour and two empty cells.
pub const TWO_WEIGHT: i32 = 100;

/// Score of a line holding one piece and three empty cells.
pub const ONE_WEIGHT: i32 = 10;

/// Largest magnitude of a whole-grid evaluation: every line at `WIN_WEIGHT`.
pub const EVALUATION_BOUND: i32 = 8400000;

/// A piece: red or yellow.
#[derive(Clone, Copy, Debug, PartialEq, Eq, Structural)]
pub enum Piece {
    R,
    Y,
}

/// A side: red plays `R` pieces, yellow plays `Y` pieces.
#[derive(Clone, Copy, Debug, PartialEq, Eq, Structural)]
pub enum Player {
    Red,
    Yellow,
}

/// Where a game stands: still going, won by a side, or drawn on a full grid.
#[derive(Clone, Copy, Debug, PartialEq, Eq, Structural)]
pub enum Outcome {
    Ongoing,
    Win(Player),
    Draw,
}

/// The side a piece belongs to.
pub open spec fn owner(p: Piece) -> Player {
    match p {
        Piece::R => Player::Red,
        Piece::Y => Player::Yellow,
    }
}

/// The piece a side plays.
pub open spec fn piece_of(p: Player) -> Piece {
    match p {
        Player::Red => Piece::R,
        Player::Yellow => Piece::Y,
    }
}

/// The other side.
pub open spec fn opponent(p: Player) -> Player {
    match p {
        Player::Red => Player::Yellow,
        Player::Yellow => Player::Red,
    }
}

/// The other colour.
pub open spec fn other_piece(p: Piece) -> Piece {
    match p {
        Piece::R => Piece::Y,
        Piece::Y => Piece::R,
    }
}

impl From<Piece> for Player {
    fn from(piece: Piece) -> (r: Player) {
        match piece {
            Piece::R => Player::Red,
            Piece::Y => Player::Yellow,
        }
    }
}

impl vstd::std_specs::convert::FromSpecImpl<Piece> for Player {
    open spec fn obeys_from_spec() -> bool {
        true
    }

    open spec fn from_spec(v: Piece) -> Player {
        owner(v)
    }
}

/// Four cells win when they hold four pieces of one colour.
pub open spec fn line_wins(l: Seq<Option<Piece>>) -> bool {
    &&& l[0] is Some
    &&& l[1] == l[0]
    &&& l[2] == l[0]
    &&& l[3] == l[0]
}

/// The winner found by scanning the lines from number `i` on, in scan order.
pub open spec fn winner_from(g: Seq<Seq<Option<Piece>>>, i: int) -> Option<Player>
    decreases 168 - i,
{
    if i < 0 || i >= 168 {
        None
    } else if line_wins(line_at(g, i)) {
        Some(owner(line_at(g, i)[0]->0))
    } else {
        winner_from(g, i + 1)
    }
}

/// The side owning the first winning line in scan order, if any.
pub open spec fn winner_of(g: Seq<Seq<Option<Piece>>>) -> Option<Player> {
    winner_from(g, 0)
}

/// A win takes precedence over a draw; a full grid without a win is a draw.
pub open spec fn outcome_of(g: Seq<Seq<Option<Piece>>>) -> Outcome {
    match winner_of(g) {
        Some(p) => Outcome::Win(p),
        None => if is_full(g) {
            Outcome::Draw
        } else {
            Outcome::Ongoing
        },
    }
}

/// How many of the four cells hold `v`.
pub open spec fn count_of(l: Seq<Option<Piece>>, v: Option<Piece>) -> int {
    (if l[0] == v { 1int } else { 0 }) + (if l[1] == v { 1int } else { 0 }) + (if l[2] == v {
        1int
    } else {
        0
    }) + (if l[3] == v { 1int } else { 0 })
}

/// Weight of `n` pieces of one colour in a line with no piece of the other.
pub open spec fn weight(n: int) -> int {
    if n >= 4 {
        WIN_WEIGHT as int
    } else if n == 3 {
        THREE_WEIGHT as int
    } else if n == 2 {
        TWO_WEIGHT as int
    } else if n == 1 {
        ONE_WEIGHT as int
    } else {
        0
    }
}

/// Score of one line: positive for red, negative for yellow, zero when the
/// line holds both colours or none.
pub open spec fn line_score(l: Seq<Option<Piece>>) -> int {
    let reds = count_of(l, Some(Piece::R));
    let yellows = count_of(l, Some(Piece::Y));
    if reds > 0 && yellows > 0 {
        0
    } else if reds > 0 {
        weight(reds)
    } else {
        -weight(yellows)
    }
}

/// Sum of the scores of the first `n` lines in scan order.
pub open spec fn score_sum(g: Seq<Seq<Option<Piece>>>, n: int) -> int
    decreases n,
{
    if n <= 0 {
        0
    } else {
        score_sum(g, n - 1) + line_score(line_at(g, n - 1))
    }
}

/// Static evaluation of a grid: the sum of the scores of all lines.
pub open spec fn evaluation(g: Seq<Seq<Option<Piece>>>) -> int {
    score_sum(g, 168)
}

/// Red maximizes the evaluation, yellow minimizes it.
pub open spec fn improves(p: Piece, score: int, best: int) -> bool {
    match p {
        Piece::R => score > best,
        Piece::Y => score < best,
    }
}

/// The score that any real score improves on, for the mover `p`.
pub open spec fn worst_score(p: Piece) -> int {
    match p {
        Piece::R => i32::MIN as int,
        Piece::Y => i32::MAX as int,
    }
}

/// Minimax value and move of `g` with `p` to move, searched `depth` plies deep.
/// A position that is already won or full, or a depth of zero, is scored by
/// `evaluation` (the column is then 0).
pub open spec fn search(g: Seq<Seq<Option<Piece>>>, depth: int, p: Piece) -> (int, int)
    decreases depth, 8int,
{
    if depth <= 0 || is_full(g) || winner_of(g) is Some {
        (0, evaluation(g))
    } else {
        match search_columns(g, depth, p, 0, None) {
            Some(best) => best,
            None => (0, worst_score(p)),
        }
    }
}

/// The best (column, score) among columns `col..7` whose top cell is empty,
/// starting from `best`; a later column replaces the best only when it
/// scores strictly better for `p`, so the first column wins ties.
pub open spec fn search_columns(
    g: Seq<Seq<Option<Piece>>>,
    depth: int,
    p: Piece,
    col: int,
    best: Option<(int, int)>,
) -> Option<(int, int)>
    decreases depth, 7 - col,
{
    if col < 0 || col >= 7 || depth <= 0 {
        best
    } else {
        let next = if g[0][col] is None {
            let s = search(dropped(g, col, p), depth - 1, other_piece(p)).1;
            match best {
                Some(b) => if improves(p, s, b.1) {
                    Some((col, s))
                } else {
                    best
                },
                None => Some((col, s)),
            }
        } else {
            best
        };
        search_columns(g, depth, p, col + 1, next)
    }
}

/// Search depth used for a difficulty level (level 1 plays at random).
pub open spec fn search_depth(level: int) -> int {
    if level == 4 {
        2
    } else {
        1
    }
}

/// Search depth used for a difficulty level (level 1 plays at random).
pub fn level_depth(level: usize) -> (d: i32)
    ensures
        d == search_depth(level as int),
{
    if level == 4 {
        2
    } else {
        1
    }
}

/// A four-in-a-row game: the grid and the side to move.
#[derive(Clone, Copy, Debug)]
pub struct Connect4 {
    board: Board<Piece>,
    current_player: Player,
}

impl Connect4 {
    /// The cells of the grid.
    pub closed spec fn grid(&self) -> Seq<Seq<Option<Piece>>> {
        grid_view(&self.board)
    }

    /// The side to move.
    pub closed spec fn turn(&self) -> Player {
        self.current_player
    }

    /// The grid has 6 rows of 7 cells and obeys gravity.
    pub open spec fn wf(&self) -> bool {
        well_formed(self.grid())
    }

    /// An empty grid with red to move.
    pub fn new() -> (r: Connect4)
        ensures
            r.grid() == empty_grid::<Piece>(),
            r.turn() == Player::Red,
            r.wf(),
    {
        let r = Connect4 { board: [[None;7];6], current_player: Player::Red };
        assert(r.grid() =~~= empty_grid::<Piece>());
        r
    }

    /// A copy of the grid.
    pub fn get_grid(&self) -> (r: Board<Piece>)
        ensures
            grid_view(&r) == self.grid(),
    {
        self.board
    }

    /// The row the next piece in `col` lands in, or `FULL_COLUMN`.
    pub fn top_row(&self, col: usize) -> (r: usize)
        requires
            col < COLS,
        ensures
            landing_row(self.grid(), col as int) == (if r == crate::grid::FULL_COLUMN {
                None
            } else {
                Some(r as int)
            }),
    {
        crate::grid::top_row(&self.board, col)
    }

    fn check_bounds(&self, col: usize) -> (r: bool)
        ensures
            r == (col < COLS),
    {
        col < COLS
    }

    /// The current side drops its piece into `column`. On success the turn
    /// passes to the other side; an out-of-range or full column, or a game
    /// already won, changes nothing.
    pub fn user_move(&mut self, column: usize) -> (done: bool)
        requires
            old(self).wf(),
        ensures
            final(self).wf(),
            done == (column < COLS && is_open(old(self).grid(), column as int) && winner_of(
                old(self).grid(),
            ) is None),
            done ==> final(self).grid() == dropped(
                old(self).grid(),
                column as int,
                piece_of(old(self).turn()),
            ),
            done ==> final(self).turn() == opponent(old(self).turn()),
            !done ==> *final(self) == *old(self),
    {
        let piece = match self.current_player {
            Player::Yellow => Piece::Y,
            Player::Red => Piece::R,
        };
        if !self.check_bounds(column) {
            return false;
        }
        if self.top_row(column) == crate::grid::FULL_COLUMN || self.is_over() {
            return false;
        }
        self.place_piece(column, piece);
        self.current_player = match self.current_player {
            Player::Red => Player::Yellow,
            Player::Yellow => Player::Red,
        };
        true
    }

    /// One round against the computer: the current side drops its piece into
    /// `column` as `user_move` does; if that is accepted and the game goes
    /// on, the computer answers as `ai_move(depth)` does. Returns whether the
    /// move was accepted.
    pub fn play_turn(&mut self, column: usize, depth: usize) -> (accepted: bool)
        requires
            old(self).wf(),
        ensures
            final(self).wf(),
            accepted == (column < COLS && is_open(old(self).grid(), column as int) && winner_of(
                old(self).grid(),
            ) is None),
            !accepted ==> *final(self) == *old(self),
            ({
                let after = dropped(old(self).grid(), column as int, piece_of(old(self).turn()));
                let reply = piece_of(opponent(old(self).turn()));
                &&& accepted && outcome_of(after) != Outcome::Ongoing ==> final(self).grid()
                    == after && final(self).turn() == opponent(old(self).turn())
                &&& accepted && outcome_of(after) == Outcome::Ongoing ==> final(self).turn()
                    == old(self).turn() && exists|c: int|
                    0 <= c < 7 && is_open(after, c) && final(self).grid() == dropped(
                        after,
                        c,
                        reply,
                    )
                &&& accepted && outcome_of(after) == Outcome::Ongoing && depth != 1
                    ==> final(self).grid() == dropped(
                    after,
                    search(after, search_depth(depth as int), reply).0,
                    reply,
                )
            }),
    {
        if !self.user_move(column) {
            return false;
        }
        self.ai_move(depth);
        true
    }

    /// Drops `piece` into `column`; returns its row, or `None` for a full or
    /// out-of-range column, which is left as it was.
    pub fn place_piece(&mut self, column: usize, piece: Piece) -> (r: Option<usize>)
        requires
            old(self).wf(),
        ensures
            final(self).wf(),
            final(self).turn() == old(self).turn(),
            r == (if column < COLS {
                match landing_row(old(self).grid(), column as int) {
                    Some(x) => Some(x as usize),
                    None => None,
                }
            } else {
                None
            }),
            final(self).grid() == (if column < COLS {
                dropped(old(self).grid(), column as int, piece)
            } else {
                old(self).grid()
            }),
    {
        if column >= COLS {
            return None;
        }
        crate::grid::place(&mut self.board, column, piece)
    }

    /// Clears cell `(row, col)`, which must hold the topmost piece of its column.
    pub fn remove_piece(&mut self, row: usize, col: usize)
        requires
            old(self).wf(),
            row < ROWS,
            col < COLS,
            old(self).grid()[row as int][col as int] is Some,
            row == 0 || old(self).grid()[row - 1][col as int] is None,
        ensures
            final(self).wf(),
            final(self).turn() == old(self).turn(),
            final(self).grid() == set_cell(old(self).grid(), row as int, col as int, None),
    {
        proof {
            lemma_clear_top_keeps_gravity(self.grid(), row as int, col as int);
        }
        crate::grid::write_cell(&mut self.board, row, col, None);
    }

    /// The computer moves for the current side. Level 1 drops into an open
    /// column picked at random; any other level drops into the column chosen
    /// by `minimax` at depth `search_depth(level)`. Nothing happens once the
    /// game is won or drawn; otherwise a piece is placed and the turn passes.
    pub fn ai_move(&mut self, depth: usize) -> (done: bool)
        requires
            old(self).wf(),
        ensures
            final(self).wf(),
            done == (outcome_of(old(self).grid()) == Outcome::Ongoing),
            !done ==> *final(self) == *old(self),
            done ==> final(self).turn() == opponent(old(self).turn()),
            done ==> exists|c: int|
                0 <= c < 7 && is_open(old(self).grid(), c) && final(self).grid() == dropped(
                    old(self).grid(),
                    c,
                    piece_of(old(self).turn()),
                ),
            done && depth != 1 ==> final(self).grid() == dropped(
                old(self).grid(),
                search(
                    old(self).grid(),
                    search_depth(depth as int),
                    piece_of(old(self).turn()),
                ).0,
                piece_of(old(self).turn()),
            ),
    {
        if self.is_over() || self.is_draw() {
            return false;
        }
        let piece = match self.current_player {
            Player::Red => Piece::R,
            Player::Yellow => Piece::Y,
        };
        let column = if depth == 1 {
            proof {
                lemma_not_full_has_open(self.grid());
            }
            let n = crate::grid::open_column_count(&self.board);
            let pick = random_below(n);
            crate::grid::nth_open_column(&self.board, pick)
        } else {
            let level = level_depth(depth);
            proof {
                lemma_search_picks_open(self.grid(), level as int, piece);
            }
            let (c, _score) = self.minimax(level, piece);
            c
        };
        self.place_piece(column, piece);
        self.current_player = match self.current_player {
            Player::Red => Player::Yellow,
            Player::Yellow => Player::Red,
        };
        true
    }

    /// Minimax search with `piece` to move: returns `search(grid, depth, piece)`.
    /// Every hypothetical piece is removed again, so the game is left exactly
    /// as it was.
    pub fn minimax(&mut self, depth: i32, piece: Piece) -> (r: (usize, i32))
        requires
            old(self).wf(),
            0 <= depth,
        ensures
            *final(self) == *old(self),
            (r.0 as int, r.1 as int) == search(old(self).grid(), depth as int, piece),
            depth == 0 ==> r.1 == evaluation(old(self).grid()),
        decreases depth,
    {
        if depth == 0 || self.is_draw() || self.is_over() {
            return (0, self.evaluate_board());
        }
        let ghost g = self.grid();
        let ghost start = *self;
        let maximizing = match piece {
            Piece::R => true,
            Piece::Y => false,
        };
        let next = match piece {
            Piece::R => Piece::Y,
            Piece::Y => Piece::R,
        };
        let mut found = false;
        let mut best_score: i32 = if maximizing {
            i32::MIN
        } else {
            i32::MAX
        };
        let mut best_col: usize = 0;
        let mut column: usize = 0;
        while column < COLS
            invariant
                self.wf(),
                self.board == start.board,
                self.current_player == start.current_player,
                g == start.grid(),
                start.wf(),
                0 < depth,
                column <= 7,
                maximizing == (piece == Piece::R),
                next == other_piece(piece),
                !found ==> best_col == 0 && best_score as int == worst_score(piece),
                search_columns(g, depth as int, piece, 0, None) == search_columns(
                    g,
                    depth as int,
                    piece,
                    column as int,
                    if found {
                        Some((best_col as int, best_score as int))
                    } else {
                        None
                    },
                ),
            decreases 7 - column,
        {
            if self.board[0][column].is_none() {
                assert(g[0][column as int] is None);
                proof {
                    lemma_empty_cell_open(g, column as int, 0);
                    lemma_landing_from(g, column as int, 5);
                }
                let row = self.place_piece(column, piece);
                let r = row.unwrap();
                let (_, score) = self.minimax(depth - 1, next);
                self.remove_piece(r, column);
                proof {
                    lemma_drop_then_clear(g, column as int, piece);
                    lemma_view_injective(&self.board, &start.board);
                }
                if !found || (maximizing && score > best_score) || (!maximizing && score
                    < best_score) {
                    found = true;
                    best_score = score;
                    best_col = column;
                }
            }
            column = column + 1;
        }
        (best_col, best_score)
    }

    /// Static evaluation of the grid: the sum of `get_score` over all lines.
    pub fn evaluate_board(&self) -> (r: i32)
        ensures
            r == evaluation(self.grid()),
            -EVALUATION_BOUND <= r <= EVALUATION_BOUND,
    {
        let mut score: i32 = 0;
        let mut i: usize = 0;
        while i < LINE_COUNT
            invariant
                i <= 168,
                score == score_sum(self.grid(), i as int),
                -50000 * i <= score <= 50000 * i,
            decreases 168 - i,
        {
            let line = crate::grid::line_at_index(&self.board, i);
            let s = self.get_score(&line);
            score = score + s;
            i = i + 1;
        }
        score
    }

    /// Score of one line of four cells (see `line_score`).
    pub fn get_score(&self, line: &[Option<Piece>; 4]) -> (r: i32)
        ensures
            r == line_score(line@),
            -WIN_WEIGHT <= r <= WIN_WEIGHT,
    {
        let reds = holds(line[0], Piece::R) + holds(line[1], Piece::R) + holds(line[2], Piece::R)
            + holds(line[3], Piece::R);
        let yellows = holds(line[0], Piece::Y) + holds(line[1], Piece::Y) + holds(
            line[2],
            Piece::Y,
        ) + holds(line[3], Piece::Y);
        if reds > 0 && yellows > 0 {
            0
        } else if reds > 0 {
            weight_of(reds)
        } else {
            -weight_of(yellows)
        }
    }

    /// The side owning the first winning line in scan order, if any.
    pub fn winner(&self) -> (r: Option<Player>)
        ensures
            r == winner_of(self.grid()),
    {
        let mut i: usize = 0;
        while i < LINE_COUNT
            invariant
                i <= 168,
                winner_of(self.grid()) == winner_from(self.grid(), i as int),
            decreases 168 - i,
        {
            let line = crate::grid::line_at_index(&self.board, i);
            if Self::check_win(&line) {
                return match line[0] {
                    Some(Piece::R) => Some(Player::Red),
                    Some(Piece::Y) => Some(Player::Yellow),
                    None => None,
                };
            }
            i = i + 1;
        }
        None
    }

    /// Whether the four cells hold four pieces of one colour.
    pub fn check_win(line: &[Option<Piece>; 4]) -> (r: bool)
        ensures
            r == line_wins(line@),
    {
        match line[0] {
            Some(p) => holds(line[1], p) == 1 && holds(line[2], p) == 1 && holds(line[3], p) == 1,
            None => false,
        }
    }

    /// Whether every cell is occupied.
    pub fn is_draw(&self) -> (r: bool)
        ensures
            r == is_full(self.grid()),
    {
        crate::grid::full(&self.board)
    }

    /// Whether some side has a winning line.
    pub fn is_over(&self) -> (r: bool)
        ensures
            r == (winner_of(self.grid()) is Some),
    {
        self.winner().is_some()
    }

    /// Where the game stands; a win is reported before a draw.
    pub fn status(&self) -> (r: Outcome)
        ensures
            r == outcome_of(self.grid()),
    {
        match self.winner() {
            Some(p) => Outcome::Win(p),
            None => if self.is_draw() {
                Outcome::Draw
            } else {
                Outcome::Ongoing
            },
        }
    }
}

/// 1 when `cell` holds `p`, else 0.
fn holds(cell: Option<Piece>, p: Piece) -> (r: usize)
    ensures
        r == (if cell == Some(p) {
            1int
        } else {
            0
        }),
{
    match cell {
        Some(q) => if q == p {
            1
        } else {
            0
        },
        None => 0,
    }
}

/// `weight(n)` as a machine integer.
fn weight_of(n: usize) -> (r: i32)
    requires
        n <= 4,
    ensures
        r == weight(n as int),
{
    if n == 4 {
        WIN_WEIGHT
    } else if n == 3 {
        THREE_WEIGHT
    } else if n == 2 {
        TWO_WEIGHT
    } else if n == 1 {
        ONE_WEIGHT
    } else {
        0
    }
}

/// A search that is not at a base case on a well-formed grid picks a column
/// with an empty top cell, which is therefore open.
pub proof fn lemma_search_picks_open(g: Seq<Seq<Option<Piece>>>, depth: int, p: Piece)
    requires
        well_formed(g),
        depth > 0,
        !is_full(g),
        winner_of(g) is None,
    ensures
        0 <= search(g, depth, p).0 < 7,
        g[0][search(g, depth, p).0] is None,
        is_open(g, search(g, depth, p).0),
{
    lemma_not_full_has_open(g);
    lemma_nth_open(g, 0, 0);
    let c = nth_open(g, 0);
    lemma_open_iff_top_empty(g, c);
    lemma_columns_pick_open(g, depth, p, 0, None, c);
    let b = search_columns(g, depth, p, 0, None)->0;
    lemma_open_iff_top_empty(g, b.0);
}

/// Scanning columns `col..7` from `best` ends on a column with an empty top
/// cell, when `best` already holds one or one lies ahead (`c`).
proof fn lemma_columns_pick_open(
    g: Seq<Seq<Option<Piece>>>,
    depth: int,
    p: Piece,
    col: int,
    best: Option<(int, int)>,
    c: int,
)
    requires
        0 <= col <= 7,
        depth > 0,
        best is Some ==> 0 <= (best->0).0 < 7 && g[0][(best->0).0] is None,
        best is None ==> col <= c < 7 && g[0][c] is None,
    ensures
        search_columns(g, depth, p, col, best) is Some,
        0 <= (search_columns(g, depth, p, col, best)->0).0 < 7,
        g[0][(search_columns(g, depth, p, col, best)->0).0] is None,
    decreases 7 - col,
{
    if col < 7 {
        let next = if g[0][col] is None {
            let s = search(dropped(g, col, p), depth - 1, other_piece(p)).1;
            match best {
                Some(b) => if improves(p, s, b.1) {
                    Some((col, s))
                } else {
                    best
                },
                None => Some((col, s)),
            }
        } else {
            best
        };
        lemma_columns_pick_open(g, depth, p, col + 1, next, c);
    }
}

/// Scanning from line `i` on finds a winner exactly when some line at or
/// after `i` wins.
proof fn lemma_scan_finds(g: Seq<Seq<Option<Piece>>>, i: int)
    requires
        0 <= i <= 168,
    ensures
        winner_from(g, i) is Some <==> exists|j: int|
            i <= j < 168 && #[trigger] line_wins(line_at(g, j)),
    decreases 168 - i,
{
    if i < 168 {
        lemma_scan_finds(g, i + 1);
    }
}

/// A win is reported exactly when some line, from some origin in one of the
/// four directions, holds a winning pattern; which line a scan meets first
/// does not matter.
pub proof fn lemma_winner_iff_winning_line(g: Seq<Seq<Option<Piece>>>)
    ensures
        winner_of(g) is Some <==> exists|r: int, c: int, d: int|
            0 <= r < 6 && 0 <= c < 7 && 0 <= d < 4 && #[trigger] line_wins(line(g, r, c, d)),
{
    lemma_scan_finds(g, 0);
    if winner_of(g) is Some {
        let j = choose|j: int| 0 <= j < 168 && #[trigger] line_wins(line_at(g, j));
        lemma_line_index_bounds(j);
        assert(line_wins(line(g, j / 28, (j % 28) / 4, j % 4)));
    }
    if exists|r: int, c: int, d: int|
        0 <= r < 6 && 0 <= c < 7 && 0 <= d < 4 && #[trigger] line_wins(line(g, r, c, d)) {
        let (r, c, d) = choose|r: int, c: int, d: int|
            0 <= r < 6 && 0 <= c < 7 && 0 <= d < 4 && #[trigger] line_wins(line(g, r, c, d));
        lemma_line_index(r, c, d);
        assert(line_wins(line_at(g, 28 * r + 4 * c + d)));
    }
}

/// A full grid with no winning line is a draw, never a game still going.
pub proof fn lemma_full_without_win_is_draw(g: Seq<Seq<Option<Piece>>>)
    requires
        is_full(g),
        winner_of(g) is None,
    ensures
        outcome_of(g) == Outcome::Draw,
{
}

/// The search is a function of the grid, the side to move and the depth:
/// equal inputs give the same move and score.
pub proof fn lemma_search_deterministic(g1: Seq<Seq<Option<Piece>>>, g2: Seq<Seq<Option<Piece>>>, depth: int, p: Piece)
    requires
        g1 == g2,
    ensures
        search(g1, depth, p) == search(g2, depth, p),
{
}

} // verus!
