use drop_four::grid::FULL_COLUMN;
use drop_four::toot_otto::{Difficulty, Outcome, Piece, Player, TootOtto};

fn count_pieces(game: &TootOtto) -> usize {
    game.get_grid().iter().flatten().filter(|c| c.is_some()).count()
}

#[test]
fn new_letter_game_is_empty_with_toot_to_move() {
    let game = TootOtto::new();
    assert!(game.get_grid().iter().flatten().all(|c| c.is_none()));
    assert_eq!(game.get_current_player(), Player::Toot);
    assert_eq!(game.winner(), None);
    assert!(!game.is_over());
    assert!(!game.is_draw());
    assert_eq!(game.status(), Outcome::Ongoing);
}

#[test]
fn toot_spelled_on_bottom_row_wins_for_toot() {
    let mut game = TootOtto::new();
    game.make_move_by_toot(0, Piece::T);
    game.make_move_by_otto(1, Piece::O);
    game.make_move_by_toot(2, Piece::O);
    assert_eq!(game.winner(), None);
    game.make_move_by_otto(3, Piece::T);
    assert_eq!(game.winner(), Some(Player::Toot));
    assert!(game.is_over());
    assert_eq!(game.status(), Outcome::Win(Player::Toot));
}

#[test]
fn otto_spelled_vertically_wins_for_otto() {
    let mut game = TootOtto::new();
    for piece in [Piece::O, Piece::T, Piece::T, Piece::O] {
        game.make_move_by_otto(5, piece);
    }
    assert_eq!(game.winner(), Some(Player::Otto));
}

#[test]
fn letter_column_fills_up() {
    let mut game = TootOtto::new();
    for i in 0..6 {
        assert_eq!(game.top_row(4), 5 - i);
        game.make_move_by_toot(4, Piece::T);
    }
    assert_eq!(game.top_row(4), FULL_COLUMN);
    let before = game.get_grid();
    game.make_move_by_toot(4, Piece::O);
    assert_eq!(game.get_grid(), before);
}

#[test]
fn letter_move_out_of_range_changes_nothing() {
    let mut game = TootOtto::new();
    game.make_move_by_toot(7, Piece::T);
    game.make_move_by_otto(12, Piece::O);
    assert_eq!(count_pieces(&game), 0);
}

#[test]
fn letter_draw_on_full_grid() {
    let mut game = TootOtto::new();
    for c in 0..7 {
        for _ in 0..6 {
            game.make_move_by_toot(c, Piece::T);
        }
    }
    assert!(game.is_draw());
    assert_eq!(game.winner(), None);
    assert_eq!(game.status(), Outcome::Draw);
    let before = game.get_grid();
    game.make_move_by_ai();
    assert_eq!(game.get_grid(), before);
}

#[test]
fn letter_line_scores() {
    let game = TootOtto::new();
    let (t, o) = (Some(Piece::T), Some(Piece::O));
    assert_eq!(game.get_score(&[t, o, o, t], true), 1100);
    assert_eq!(game.get_score(&[t, o, o, t], false), 1000);
    assert_eq!(game.get_score(&[o, t, t, o], true), -1000);
    assert_eq!(game.get_score(&[o, t, t, o], false), -1100);
    assert_eq!(game.get_score(&[t, o, o, None], true), 100);
    assert_eq!(game.get_score(&[None, o, o, t], false), 110);
    assert_eq!(game.get_score(&[o, t, t, None], true), -110);
    assert_eq!(game.get_score(&[None, t, t, o], false), -100);
    assert_eq!(game.get_score(&[None, t, t, None], true), -10);
    assert_eq!(game.get_score(&[None, o, o, None], false), 10);
    assert_eq!(game.get_score(&[t, t, t, t], true), 0);
    assert_eq!(game.get_score(&[None, None, None, None], false), 0);
}

#[test]
fn letter_check_win_patterns() {
    let (t, o) = (Some(Piece::T), Some(Piece::O));
    assert!(TootOtto::check_win(&[t, o, o, t]));
    assert!(TootOtto::check_win(&[o, t, t, o]));
    assert!(!TootOtto::check_win(&[t, o, o, o]));
    assert!(!TootOtto::check_win(&[t, o, o, None]));
}

#[test]
fn letter_evaluation_from_both_sides() {
    let mut game = TootOtto::new();
    for (c, p) in [(0, Piece::T), (1, Piece::O), (2, Piece::O)] {
        game.make_move_by_toot(c, p);
    }
    assert_eq!(game.evaluate_board(true), 100);
    assert_eq!(game.evaluate_board(false), 110);
    game.make_move_by_toot(3, Piece::T);
    assert_eq!(game.evaluate_board(true), 1100);
    assert_eq!(game.evaluate_board(false), 1000);
}

#[test]
fn letter_search_at_depth_zero_is_the_evaluation() {
    let mut game = TootOtto::new();
    game.make_move_by_toot(1, Piece::O);
    game.make_move_by_otto(2, Piece::O);
    let before = game.get_grid();
    for maximizing in [true, false] {
        let score = game.evaluate_board(maximizing);
        assert_eq!(game.minimax(0, maximizing), (0, score, Piece::T));
    }
    assert_eq!(game.get_grid(), before);
}

#[test]
fn letter_search_blocks_and_completes() {
    let mut game = TootOtto::new();
    for (c, p) in [(0, Piece::T), (1, Piece::O), (2, Piece::O)] {
        game.make_move_by_toot(c, p);
    }
    let before = game.get_grid();
    assert_eq!(game.minimax(2, false), (3, 20, Piece::O));
    assert_eq!(game.minimax(2, true), (3, 1000, Piece::T));
    assert_eq!(game.minimax(1, true), (3, 1000, Piece::T));
    assert_eq!(game.minimax(1, false), (3, 0, Piece::O));
    assert_eq!(game.minimax(2, false), (3, 20, Piece::O));
    assert_eq!(game.get_grid(), before);
    assert_eq!(TootOtto::new().minimax(2, false), (0, 0, Piece::T));
}

#[test]
fn medium_ai_blocks_toot() {
    let mut game = TootOtto::new();
    game.set_difficulty(Difficulty::Medium);
    for (c, p) in [(0, Piece::T), (1, Piece::O), (2, Piece::O)] {
        game.make_move_by_toot(c, p);
    }
    game.make_move_by_ai();
    assert_eq!(game.get_grid()[5][3], Some(Piece::O));
    assert_eq!(game.get_current_player(), Player::Toot);
    assert_eq!(game.winner(), None);
}

#[test]
fn hard_ai_moves_once() {
    let mut game = TootOtto::new();
    game.set_difficulty(Difficulty::Hard);
    game.make_move_by_toot(3, Piece::T);
    game.make_move_by_ai();
    assert_eq!(count_pieces(&game), 2);
    assert_eq!(game.get_current_player(), Player::Toot);
}

#[test]
fn easy_ai_places_one_letter() {
    for _ in 0..20 {
        let mut game = TootOtto::new();
        for _ in 0..6 {
            game.make_move_by_toot(6, Piece::T);
        }
        game.make_move_by_ai();
        assert_eq!(count_pieces(&game), 7);
        assert_eq!(game.get_current_player(), Player::Toot);
        assert_eq!(game.top_row(6), FULL_COLUMN);
    }
}

#[test]
fn ai_does_nothing_after_a_letter_win() {
    let mut game = TootOtto::new();
    game.set_difficulty(Difficulty::Medium);
    for (c, p) in [(0, Piece::O), (1, Piece::T), (2, Piece::T), (3, Piece::O)] {
        game.make_move_by_otto(c, p);
    }
    let before = game.get_grid();
    game.make_move_by_ai();
    assert_eq!(game.get_grid(), before);
    assert_eq!(game.status(), Outcome::Win(Player::Otto));
}

#[test]
fn letter_converts_to_its_side() {
    assert_eq!(Player::from(Piece::T), Player::Toot);
    assert_eq!(Player::from(Piece::O), Player::Otto);
}

#[test]
fn letters_after_a_win_are_rejected() {
    let mut game = TootOtto::new();
    for (c, p) in [(0, Piece::T), (1, Piece::O), (2, Piece::O), (3, Piece::T)] {
        game.make_move_by_toot(c, p);
    }
    let before = game.get_grid();
    game.make_move_by_otto(5, Piece::O);
    game.make_move_by_toot(6, Piece::T);
    assert!(!game.play_turn(5, Piece::T));
    assert_eq!(game.get_grid(), before);
}

#[test]
fn letter_play_turn_answers_with_the_computer() {
    let mut game = TootOtto::new();
    game.set_difficulty(Difficulty::Medium);
    for (c, p) in [(0, Piece::T), (1, Piece::O)] {
        game.make_move_by_toot(c, p);
    }
    assert!(game.play_turn(2, Piece::O));
    let grid = game.get_grid();
    assert_eq!(grid[5][2], Some(Piece::O));
    assert_eq!(grid[5][3], Some(Piece::O));
    assert_eq!(count_pieces(&game), 4);
    assert_eq!(game.get_current_player(), Player::Toot);
    assert!(!game.play_turn(7, Piece::T));
}

#[test]
fn difficulty_depths() {
    assert_eq!(Difficulty::Easy.depth(), 0);
    assert_eq!(Difficulty::Medium.depth(), 2);
    assert_eq!(Difficulty::Hard.depth(), 3);
}
