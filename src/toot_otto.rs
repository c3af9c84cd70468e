//! Letter-drop: either side may drop a `T` or an `O`; the line T-O-O-T wins
//! for Toot and the line O-T-T-O wins for Otto.
use vstd::prelude::*;

use crate::grid::{
    dropped, empty_grid, grid_view, is_full, is_open, landing_row, lemma_landing_from,
    lemma_line_index, lemma_line_index_bounds, lemma_not_full_has_open, lemma_nth_open,
    lemma_view_injective, line, line_at, nth_open, set_cell, well_formed, Board, COLS,
    FULL_COLUMN, LINE_COUNT,
};
use crate::random::random_below;

verus! {

/// Score of a completed pattern of the side whose view is scored.
pub const OWN_WIN_WEIGHT: i32 = 1100;

/// Score of a completed pattern of the other side.
pub const OPPONENT_WIN_WEIGHT: i32 = 1000;

/// Score of three letters of the other side's pattern with its last cell open.
pub const BLOCK_WEIGHT: i32 = 110;

/// Score of three letters of one's own pattern with its last cell open.
pub const BUILD_WEIGHT: i32 = 100;

/// Score of the middle pair of a pattern with both ends open.
pub const PAIR_WEIGHT: i32 = 10;

/// Largest magnitude of a whole-grid evaluation: every line at `OWN_WIN_WEIGHT`.
pub const EVALUATION_BOUND: i32 = 184800;

/// Start value of the best score while searching: below every real score for
/// the maximizing side, above it for the minimizing side.
pub const SEARCH_INFINITY: i32 = 10000000;

/// A letter.
#[derive(Clone, Copy, Debug, PartialEq, Eq, Structural)]
pub enum Piece {
    T,
    O,
}

/// How strongly the computer plays: `Easy` moves at random, the others search.
#[derive(Clone, Copy, Debug, PartialEq, Eq, Structural)]
pub enum Difficulty {
    Easy,
    Medium,
    Hard,
}

/// Toot owns T-O-O-T, Otto owns O-T-T-O; `AI` marks the computer's turn.
#[derive(Clone, Copy, Debug, PartialEq, Eq, Structural)]
pub enum Player {
    Toot,
    Otto,
    AI,
}

/// Where a game stands: still going, won by a side, or drawn on a full grid.
#[derive(Clone, Copy, Debug, PartialEq, Eq, Structural)]
pub enum Outcome {
    Ongoing,
    Win(Player),
    Draw,
}

/// The side whose pattern starts with this letter.
pub open spec fn owner(p: Piece) -> Player {
    match p {
        Piece::T => Player::Toot,
        Piece::O => Player::Otto,
    }
}

impl From<Piece> for Player {
    fn from(piece: Piece) -> (r: Player) {
        match piece {
            Piece::T => Player::Toot,
            Piece::O => Player::Otto,
        }
    }
}

impl vstd::std_specs::convert::FromSpecImpl<Piece> for Player {
    open spec fn obeys_from_spec() -> bool {
        true
    }

    open spec fn from_spec(v: Piece) -> Player {
        owner(v)
    }
}

/// The four cells hold `a`, `b`, `c`, `d` in this order.
pub open spec fn spells(
    l: Seq<Option<Piece>>,
    a: Option<Piece>,
    b: Option<Piece>,
    c: Option<Piece>,
    d: Option<Piece>,
) -> bool {
    l[0] == a && l[1] == b && l[2] == c && l[3] == d
}

/// The line spells T-O-O-T.
pub open spec fn is_toot(l: Seq<Option<Piece>>) -> bool {
    spells(l, Some(Piece::T), Some(Piece::O), Some(Piece::O), Some(Piece::T))
}

/// The line spells O-T-T-O.
pub open spec fn is_otto(l: Seq<Option<Piece>>) -> bool {
    spells(l, Some(Piece::O), Some(Piece::T), Some(Piece::T), Some(Piece::O))
}

/// Four cells win when they spell either side's pattern.
pub open spec fn line_wins(l: Seq<Option<Piece>>) -> bool {
    is_toot(l) || is_otto(l)
}

/// The winner found by scanning the lines from number `i` on, in scan order.
pub open spec fn winner_from(g: Seq<Seq<Option<Piece>>>, i: int) -> Option<Player>
    decreases 168 - i,
{
    if i < 0 || i >= 168 {
        None
    } else if line_wins(line_at(g, i)) {
        Some(owner(line_at(g, i)[0]->0))
    } else {
        winner_from(g, i + 1)
    }
}

/// The side owning the first winning line in scan order, if any.
pub open spec fn winner_of(g: Seq<Seq<Option<Piece>>>) -> Option<Player> {
    winner_from(g, 0)
}

/// A win takes precedence over a draw; a full grid without a win is a draw.
pub open spec fn outcome_of(g: Seq<Seq<Option<Piece>>>) -> Outcome {
    match winner_of(g) {
        Some(p) => Outcome::Win(p),
        None => if is_full(g) {
            Outcome::Draw
        } else {
            Outcome::Ongoing
        },
    }
}

/// Score of one line, Toot's patterns positive and Otto's negative, seen
/// from Toot's side when `maximizing` and from Otto's side otherwise. The
/// order of priority is: own win, the other side's win, blocking the other
/// side's three, building one's own three, an open middle pair.
pub open spec fn line_score(l: Seq<Option<Piece>>, maximizing: bool) -> int {
    let t = Some(Piece::T);
    let o = Some(Piece::O);
    if is_toot(l) {
        if maximizing {
            OWN_WIN_WEIGHT as int
        } else {
            OPPONENT_WIN_WEIGHT as int
        }
    } else if is_otto(l) {
        if maximizing {
            -OPPONENT_WIN_WEIGHT
        } else {
            -OWN_WIN_WEIGHT
        }
    } else if spells(l, t, o, o, None) || spells(l, None, o, o, t) {
        if maximizing {
            BUILD_WEIGHT as int
        } else {
            BLOCK_WEIGHT as int
        }
    } else if spells(l, o, t, t, None) || spells(l, None, t, t, o) {
        if maximizing {
            -BLOCK_WEIGHT
        } else {
            -BUILD_WEIGHT
        }
    } else if spells(l, None, t, t, None) {
        -PAIR_WEIGHT
    } else if spells(l, None, o, o, None) {
        PAIR_WEIGHT as int
    } else {
        0
    }
}

/// Sum of the scores of the first `n` lines in scan order.
pub open spec fn score_sum(g: Seq<Seq<Option<Piece>>>, maximizing: bool, n: int) -> int
    decreases n,
{
    if n <= 0 {
        0
    } else {
        score_sum(g, maximizing, n - 1) + line_score(line_at(g, n - 1), maximizing)
    }
}

/// Static evaluation of a grid from one side's view: the sum over all lines.
pub open spec fn evaluation(g: Seq<Seq<Option<Piece>>>, maximizing: bool) -> int {
    score_sum(g, maximizing, 168)
}

/// The letter of candidate move `m` (0..14): `T` for the first seven.
pub open spec fn move_piece(m: int) -> Piece {
    if m < 7 {
        Piece::T
    } else {
        Piece::O
    }
}

/// The column of candidate move `m` (0..14).
pub open spec fn move_column(m: int) -> int {
    if m < 7 {
        m
    } else {
        m - 7
    }
}

/// Minimax value and move of `g`, maximizing for Toot when `maximizing` and
/// minimizing for Otto otherwise, searched `depth` plies deep. A position
/// that is already won or full, or a depth of zero, is scored by
/// `evaluation` (the move is then `T` in column 0).
pub open spec fn search(g: Seq<Seq<Option<Piece>>>, depth: int, maximizing: bool) -> (
    int,
    int,
    Piece,
)
    decreases depth, 15int,
{
    if depth <= 0 || is_full(g) || winner_of(g) is Some {
        (0, evaluation(g, maximizing), Piece::T)
    } else {
        match search_moves(g, depth, maximizing, 0, None) {
            Some(best) => best,
            None => (
                0,
                if maximizing {
                    -SEARCH_INFINITY
                } else {
                    SEARCH_INFINITY as int
                },
                Piece::T,
            ),
        }
    }
}

/// The best (column, score, letter) among candidate moves `m..14` in open
/// columns, starting from `best`: all `T` moves by column, then all `O`
/// moves. A later move replaces the best only when it scores strictly
/// better, so the first move tried wins ties.
pub open spec fn search_moves(
    g: Seq<Seq<Option<Piece>>>,
    depth: int,
    maximizing: bool,
    m: int,
    best: Option<(int, int, Piece)>,
) -> Option<(int, int, Piece)>
    decreases depth, 14 - m,
{
    if m < 0 || m >= 14 || depth <= 0 {
        best
    } else {
        let p = move_piece(m);
        let col = move_column(m);
        let next = if is_open(g, col) {
            let s = search(dropped(g, col, p), depth - 1, !maximizing).1;
            match best {
                Some(b) => if (maximizing && s > b.1) || (!maximizing && s < b.1) {
                    Some((col, s, p))
                } else {
                    best
                },
                None => Some((col, s, p)),
            }
        } else {
            best
        };
        search_moves(g, depth, maximizing, m + 1, next)
    }
}

/// Search depth of a difficulty level (`Easy` does not search).
pub open spec fn search_depth(d: Difficulty) -> int {
    match d {
        Difficulty::Easy => 0,
        Difficulty::Medium => 2,
        Difficulty::Hard => 3,
    }
}

impl Difficulty {
    /// Search depth of this level (`Easy` does not search).
    pub fn depth(&self) -> (d: i32)
        ensures
            d == search_depth(*self),
    {
        match self {
            Difficulty::Easy => 0,
            Difficulty::Medium => 2,
            Difficulty::Hard => 3,
        }
    }
}

/// A letter-drop game: the grid, the side to move and the computer's level.
#[derive(Clone, Copy, Debug)]
pub struct TootOtto {
    board: Board<Piece>,
    current_player: Player,
    difficulty: Difficulty,
}

impl TootOtto {
    /// The cells of the grid.
    pub closed spec fn grid(&self) -> Seq<Seq<Option<Piece>>> {
        grid_view(&self.board)
    }

    /// The side to move.
    pub closed spec fn turn(&self) -> Player {
        self.current_player
    }

    /// The computer's level.
    pub closed spec fn level(&self) -> Difficulty {
        self.difficulty
    }

    /// The grid has 6 rows of 7 cells and obeys gravity.
    pub open spec fn wf(&self) -> bool {
        well_formed(self.grid())
    }

    /// An empty grid with Toot to move, at the easy level.
    pub fn new() -> (r: TootOtto)
        ensures
            r.grid() == empty_grid::<Piece>(),
            r.turn() == Player::Toot,
            r.level() == Difficulty::Easy,
            r.wf(),
    {
        let r = TootOtto {
            board: [[None;7];6],
            current_player: Player::Toot,
            difficulty: Difficulty::Easy,
        };
        assert(r.grid() =~~= empty_grid::<Piece>());
        r
    }

    /// The side to move.
    pub fn get_current_player(&self) -> (r: Player)
        ensures
            r == self.turn(),
    {
        self.current_player
    }

    /// A copy of the grid.
    pub fn get_grid(&self) -> (r: Board<Piece>)
        ensures
            grid_view(&r) == self.grid(),
    {
        self.board
    }

    /// Sets the computer's level.
    pub fn set_difficulty(&mut self, diff: Difficulty)
        ensures
            final(self).level() == diff,
            final(self).grid() == old(self).grid(),
            final(self).turn() == old(self).turn(),
    {
        self.difficulty = diff;
    }

    /// The row the next letter in `col` lands in, or `FULL_COLUMN`.
    pub fn top_row(&self, col: usize) -> (r: usize)
        requires
            col < COLS,
        ensures
            landing_row(self.grid(), col as int) == (if r == FULL_COLUMN {
                None
            } else {
                Some(r as int)
            }),
    {
        crate::grid::top_row(&self.board, col)
    }

    /// Toot drops `piece` into `column`; an out-of-range or full column, or
    /// a game already won, changes nothing.
    pub fn make_move_by_toot(&mut self, column: usize, piece: Piece)
        requires
            old(self).wf(),
        ensures
            final(self).wf(),
            final(self).turn() == old(self).turn(),
            final(self).level() == old(self).level(),
            final(self).grid() == (if column < COLS && winner_of(old(self).grid()) is None {
                dropped(old(self).grid(), column as int, piece)
            } else {
                old(self).grid()
            }),
    {
        if column >= COLS || self.is_over() {
            return;
        }
        self.place_piece(column, piece);
    }

    /// Otto drops `piece` into `column`; an out-of-range or full column, or
    /// a game already won, changes nothing.
    pub fn make_move_by_otto(&mut self, column: usize, piece: Piece)
        requires
            old(self).wf(),
        ensures
            final(self).wf(),
            final(self).turn() == old(self).turn(),
            final(self).level() == old(self).level(),
            final(self).grid() == (if column < COLS && winner_of(old(self).grid()) is None {
                dropped(old(self).grid(), column as int, piece)
            } else {
                old(self).grid()
            }),
    {
        if column >= COLS || self.is_over() {
            return;
        }
        self.place_piece(column, piece);
    }

    /// One round against the computer: the side recorded to move drops
    /// `piece` into `column` as `make_move_by_toot` does; if that changes the
    /// grid and the game goes on, the computer answers as `make_move_by_ai`
    /// does. Returns whether the letter was placed.
    pub fn play_turn(&mut self, column: usize, piece: Piece) -> (accepted: bool)
        requires
            old(self).wf(),
        ensures
            final(self).wf(),
            final(self).level() == old(self).level(),
            accepted == (column < COLS && is_open(old(self).grid(), column as int) && winner_of(
                old(self).grid(),
            ) is None),
            !accepted ==> *final(self) == *old(self),
            ({
                let after = dropped(old(self).grid(), column as int, piece);
                &&& accepted && outcome_of(after) != Outcome::Ongoing ==> final(self).grid()
                    == after && final(self).turn() == old(self).turn()
                &&& accepted && outcome_of(after) == Outcome::Ongoing ==> exists|c: int, p: Piece|
                    0 <= c < 7 && is_open(after, c) && final(self).grid() == dropped(after, c, p)
                &&& accepted && outcome_of(after) == Outcome::Ongoing && old(self).level()
                    != Difficulty::Easy ==> ({
                    let best = search(
                        after,
                        search_depth(old(self).level()),
                        old(self).turn() != Player::Toot,
                    );
                    final(self).grid() == dropped(after, best.0, best.2)
                })
            }),
    {
        if column >= COLS || self.top_row(column) == FULL_COLUMN || self.is_over() {
            return false;
        }
        self.place_piece(column, piece);
        self.make_move_by_ai();
        true
    }

    fn place_piece(&mut self, column: usize, piece: Piece)
        requires
            old(self).wf(),
            column < COLS,
        ensures
            final(self).wf(),
            final(self).turn() == old(self).turn(),
            final(self).level() == old(self).level(),
            final(self).grid() == dropped(old(self).grid(), column as int, piece),
    {
        crate::grid::place(&mut self.board, column, piece);
    }

    /// The computer moves. Nothing happens once the game is won or drawn.
    /// Otherwise, at the easy level a random letter goes into a random open
    /// column; at the other levels the move `minimax` chooses at depth
    /// `search_depth(level)` is played, minimizing when Toot is the side
    /// recorded to move and maximizing otherwise. After a searched move the
    /// side recorded to move is Toot if it was Toot, and Otto otherwise.
    pub fn make_move_by_ai(&mut self)
        requires
            old(self).wf(),
        ensures
            final(self).wf(),
            final(self).level() == old(self).level(),
            outcome_of(old(self).grid()) != Outcome::Ongoing ==> *final(self) == *old(self),
            outcome_of(old(self).grid()) == Outcome::Ongoing ==> exists|c: int, p: Piece|
                0 <= c < 7 && is_open(old(self).grid(), c) && final(self).grid() == dropped(
                    old(self).grid(),
                    c,
                    p,
                ),
            outcome_of(old(self).grid()) == Outcome::Ongoing && old(self).level()
                == Difficulty::Easy ==> final(self).turn() == old(self).turn(),
            outcome_of(old(self).grid()) == Outcome::Ongoing && old(self).level()
                != Difficulty::Easy ==> ({
                let best = search(
                    old(self).grid(),
                    search_depth(old(self).level()),
                    old(self).turn() != Player::Toot,
                );
                &&& final(self).grid() == dropped(old(self).grid(), best.0, best.2)
                &&& final(self).turn() == if old(self).turn() == Player::Toot {
                    Player::Toot
                } else {
                    Player::Otto
                }
            }),
    {
        if self.is_draw() || self.is_over() {
            return;
        }
        proof {
            lemma_not_full_has_open(self.grid());
        }
        if self.difficulty == Difficulty::Easy {
            let n = crate::grid::open_column_count(&self.board);
            let col = crate::grid::nth_open_column(&self.board, random_below(n));
            let piece = if random_below(2) == 0 {
                Piece::O
            } else {
                Piece::T
            };
            self.place_piece(col, piece);
            return;
        }
        let depth = self.difficulty.depth();
        let next_toot = match self.current_player {
            Player::Toot => true,
            _ => false,
        };
        proof {
            lemma_search_picks_open(self.grid(), depth as int, !next_toot);
        }
        let (column, _score, piece) = self.minimax(depth, !next_toot);
        if column != FULL_COLUMN {
            self.place_piece(column, piece);
        }
        self.current_player = if next_toot {
            Player::Toot
        } else {
            Player::Otto
        };
    }

    /// Minimax search: returns `search(grid, depth, maximizing)`. Every
    /// hypothetical letter is removed again, so the game is left exactly as
    /// it was.
    pub fn minimax(&mut self, depth: i32, maximizing_player: bool) -> (r: (usize, i32, Piece))
        requires
            0 <= depth,
        ensures
            *final(self) == *old(self),
            (r.0 as int, r.1 as int, r.2) == search(
                old(self).grid(),
                depth as int,
                maximizing_player,
            ),
            depth == 0 ==> r.1 == evaluation(old(self).grid(), maximizing_player),
        decreases depth,
    {
        if depth == 0 || self.is_draw() || self.is_over() {
            return (0, self.evaluate_board(maximizing_player), Piece::T);
        }
        let ghost g = self.grid();
        let ghost start = *self;
        let mut found = false;
        let mut best_score: i32 = if maximizing_player {
            -SEARCH_INFINITY
        } else {
            SEARCH_INFINITY
        };
        let mut best_col: usize = 0;
        let mut best_piece = Piece::T;
        let mut m: usize = 0;
        while m < 14
            invariant
                *self == start,
                g == start.grid(),
                0 < depth,
                m <= 14,
                !found ==> best_col == 0 && best_piece == Piece::T && best_score as int == (
                if maximizing_player {
                    -SEARCH_INFINITY
                } else {
                    SEARCH_INFINITY as int
                }),
                search_moves(g, depth as int, maximizing_player, 0, None) == search_moves(
                    g,
                    depth as int,
                    maximizing_player,
                    m as int,
                    if found {
                        Some((best_col as int, best_score as int, best_piece))
                    } else {
                        None
                    },
                ),
            decreases 14 - m,
        {
            let piece = if m < 7 {
                Piece::T
            } else {
                Piece::O
            };
            let col = if m < 7 {
                m
            } else {
                m - 7
            };
            if let Some(row) = self.get_valid_row(col) {
                crate::grid::write_cell(&mut self.board, row, col, Some(piece));
                let score = self.minimax(depth - 1, !maximizing_player).1;
                crate::grid::write_cell(&mut self.board, row, col, None);
                proof {
                    lemma_landing_from(g, col as int, 5);
                    let h = set_cell(set_cell(g, row as int, col as int, Some(piece)), row as int, col as int, None);
                    assert(h[row as int] =~= g[row as int]);
                    assert(h =~= g);
                    lemma_view_injective(&self.board, &start.board);
                }
                if !found || (maximizing_player && score > best_score) || (!maximizing_player
                    && score < best_score) {
                    found = true;
                    best_score = score;
                    best_col = col;
                    best_piece = piece;
                }
            }
            m = m + 1;
        }
        (best_col, best_score, best_piece)
    }

    /// Static evaluation of the grid from one side's view: the sum of
    /// `get_score` over all lines.
    pub fn evaluate_board(&self, maximizing: bool) -> (r: i32)
        ensures
            r == evaluation(self.grid(), maximizing),
            -EVALUATION_BOUND <= r <= EVALUATION_BOUND,
    {
        let mut score: i32 = 0;
        let mut i: usize = 0;
        while i < LINE_COUNT
            invariant
                i <= 168,
                score == score_sum(self.grid(), maximizing, i as int),
                -1100 * i <= score <= 1100 * i,
            decreases 168 - i,
        {
            let line = crate::grid::line_at_index(&self.board, i);
            let s = self.get_score(&line, maximizing);
            score = score + s;
            i = i + 1;
        }
        score
    }

    /// Score of one line of four cells (see `line_score`).
    pub fn get_score(&self, line: &[Option<Piece>; 4], maximizing: bool) -> (r: i32)
        ensures
            r == line_score(line@, maximizing),
            -OWN_WIN_WEIGHT <= r <= OWN_WIN_WEIGHT,
    {
        let t = Some(Piece::T);
        let o = Some(Piece::O);
        if spells_exec(line, t, o, o, t) {
            if maximizing {
                OWN_WIN_WEIGHT
            } else {
                OPPONENT_WIN_WEIGHT
            }
        } else if spells_exec(line, o, t, t, o) {
            if maximizing {
                -OPPONENT_WIN_WEIGHT
            } else {
                -OWN_WIN_WEIGHT
            }
        } else if spells_exec(line, t, o, o, None) || spells_exec(line, None, o, o, t) {
            if maximizing {
                BUILD_WEIGHT
            } else {
                BLOCK_WEIGHT
            }
        } else if spells_exec(line, o, t, t, None) || spells_exec(line, None, t, t, o) {
            if maximizing {
                -BLOCK_WEIGHT
            } else {
                -BUILD_WEIGHT
            }
        } else if spells_exec(line, None, t, t, None) {
            -PAIR_WEIGHT
        } else if spells_exec(line, None, o, o, None) {
            PAIR_WEIGHT
        } else {
            0
        }
    }

    /// The landing row of `col`, or `None` for a full column.
    fn get_valid_row(&self, col: usize) -> (r: Option<usize>)
        requires
            col < COLS,
        ensures
            r == (match landing_row(self.grid(), col as int) {
                Some(x) => Some(x as usize),
                None => None,
            }),
            r is Some ==> r->0 < 6,
    {
        proof {
            lemma_landing_from(self.grid(), col as int, 5);
        }
        let row = self.top_row(col);
        if row == FULL_COLUMN {
            None
        } else {
            Some(row)
        }
    }

    /// The side owning the first winning line in scan order, if any.
    pub fn winner(&self) -> (r: Option<Player>)
        ensures
            r == winner_of(self.grid()),
    {
        let mut i: usize = 0;
        while i < LINE_COUNT
            invariant
                i <= 168,
                winner_of(self.grid()) == winner_from(self.grid(), i as int),
            decreases 168 - i,
        {
            let line = crate::grid::line_at_index(&self.board, i);
            if Self::check_win(&line) {
                return match line[0] {
                    Some(Piece::T) => Some(Player::Toot),
                    Some(Piece::O) => Some(Player::Otto),
                    None => None,
                };
            }
            i = i + 1;
        }
        None
    }

    /// Whether every cell is occupied.
    pub fn is_draw(&self) -> (r: bool)
        ensures
            r == is_full(self.grid()),
    {
        crate::grid::full(&self.board)
    }

    /// Whether some side has a winning line.
    pub fn is_over(&self) -> (r: bool)
        ensures
            r == (winner_of(self.grid()) is Some),
    {
        self.winner().is_some()
    }

    /// Where the game stands; a win is reported before a draw.
    pub fn status(&self) -> (r: Outcome)
        ensures
            r == outcome_of(self.grid()),
    {
        match self.winner() {
            Some(p) => Outcome::Win(p),
            None => if self.is_draw() {
                Outcome::Draw
            } else {
                Outcome::Ongoing
            },
        }
    }

    /// Whether the four cells spell either side's pattern.
    pub fn check_win(line: &[Option<Piece>; 4]) -> (r: bool)
        ensures
            r == line_wins(line@),
    {
        let t = Some(Piece::T);
        let o = Some(Piece::O);
        spells_exec(line, t, o, o, t) || spells_exec(line, o, t, t, o)
    }
}

/// Whether `a` and `b` are the same cell content.
fn same(a: Option<Piece>, b: Option<Piece>) -> (r: bool)
    ensures
        r == (a == b),
{
    match (a, b) {
        (Some(x), Some(y)) => x == y,
        (None, None) => true,
        _ => false,
    }
}

/// Whether the four cells hold `a`, `b`, `c`, `d` in this order.
fn spells_exec(
    line: &[Option<Piece>; 4],
    a: Option<Piece>,
    b: Option<Piece>,
    c: Option<Piece>,
    d: Option<Piece>,
) -> (r: bool)
    ensures
        r == spells(line@, a, b, c, d),
{
    same(line[0], a) && same(line[1], b) && same(line[2], c) && same(line[3], d)
}

/// A search that is not at a base case picks a move in an open column.
pub proof fn lemma_search_picks_open(g: Seq<Seq<Option<Piece>>>, depth: int, maximizing: bool)
    requires
        well_formed(g),
        depth > 0,
        !is_full(g),
        winner_of(g) is None,
    ensures
        0 <= search(g, depth, maximizing).0 < 7,
        is_open(g, search(g, depth, maximizing).0),
{
    lemma_not_full_has_open(g);
    lemma_nth_open(g, 0, 0);
    lemma_moves_pick_open(g, depth, maximizing, 0, None, nth_open(g, 0));
}

/// Scanning candidate moves `m..14` from `best` ends on a move in an open
/// column, when `best` already is one or an open column `c` lies ahead.
proof fn lemma_moves_pick_open(
    g: Seq<Seq<Option<Piece>>>,
    depth: int,
    maximizing: bool,
    m: int,
    best: Option<(int, int, Piece)>,
    c: int,
)
    requires
        0 <= m <= 14,
        depth > 0,
        best is Some ==> 0 <= (best->0).0 < 7 && is_open(g, (best->0).0),
        best is None ==> m <= c < 7 && is_open(g, c),
    ensures
        search_moves(g, depth, maximizing, m, best) is Some,
        0 <= (search_moves(g, depth, maximizing, m, best)->0).0 < 7,
        is_open(g, (search_moves(g, depth, maximizing, m, best)->0).0),
    decreases 14 - m,
{
    if m < 14 {
        let p = move_piece(m);
        let col = move_column(m);
        let next = if is_open(g, col) {
            let s = search(dropped(g, col, p), depth - 1, !maximizing).1;
            match best {
                Some(b) => if (maximizing && s > b.1) || (!maximizing && s < b.1) {
                    Some((col, s, p))
                } else {
                    best
                },
                None => Some((col, s, p)),
            }
        } else {
            best
        };
        lemma_moves_pick_open(g, depth, maximizing, m + 1, next, c);
    }
}

/// Scanning from line `i` on finds a winner exactly when some line at or
/// after `i` wins.
proof fn lemma_scan_finds(g: Seq<Seq<Option<Piece>>>, i: int)
    requires
        0 <= i <= 168,
    ensures
        winner_from(g, i) is Some <==> exists|j: int|
            i <= j < 168 && #[trigger] line_wins(line_at(g, j)),
    decreases 168 - i,
{
    if i < 168 {
        lemma_scan_finds(g, i + 1);
    }
}

/// A win is reported exactly when some line, from some origin in one of the
/// four directions, holds a winning pattern; which line a scan meets first
/// does not matter.
pub proof fn lemma_winner_iff_winning_line(g: Seq<Seq<Option<Piece>>>)
    ensures
        winner_of(g) is Some <==> exists|r: int, c: int, d: int|
            0 <= r < 6 && 0 <= c < 7 && 0 <= d < 4 && #[trigger] line_wins(line(g, r, c, d)),
{
    lemma_scan_finds(g, 0);
    if winner_of(g) is Some {
        let j = choose|j: int| 0 <= j < 168 && #[trigger] line_wins(line_at(g, j));
        lemma_line_index_bounds(j);
        assert(line_wins(line(g, j / 28, (j % 28) / 4, j % 4)));
    }
    if exists|r: int, c: int, d: int|
        0 <= r < 6 && 0 <= c < 7 && 0 <= d < 4 && #[trigger] line_wins(line(g, r, c, d)) {
        let (r, c, d) = choose|r: int, c: int, d: int|
            0 <= r < 6 && 0 <= c < 7 && 0 <= d < 4 && #[trigger] line_wins(line(g, r, c, d));
        lemma_line_index(r, c, d);
        assert(line_wins(line_at(g, 28 * r + 4 * c + d)));
    }
}

/// A full grid with no winning line is a draw, never a game still going.
pub proof fn lemma_full_without_win_is_draw(g: Seq<Seq<Option<Piece>>>)
    requires
        is_full(g),
        winner_of(g) is None,
    ensures
        outcome_of(g) == Outcome::Draw,
{
}

/// The search is a function of the grid, the side to move and the depth:
/// equal inputs give the same move and score.
pub proof fn lemma_search_deterministic(g1: Seq<Seq<Option<Piece>>>, g2: Seq<Seq<Option<Piece>>>, depth: int, p: bool)
    requires
        g1 == g2,
    ensures
        search(g1, depth, p) == search(g2, depth, p),
{
}

} // verus!
