use drop_four::connect4::{level_depth, Connect4, Outcome, Piece, Player};
use drop_four::grid::FULL_COLUMN;

fn fill_bottom_row(game: &mut Connect4, columns: &[usize], piece: Piece) {
    for &c in columns {
        assert_eq!(game.place_piece(c, piece), Some(5));
    }
}

fn count_pieces(game: &Connect4) -> usize {
    game.get_grid().iter().flatten().filter(|c| c.is_some()).count()
}

#[test]
fn new_game_is_empty_with_red_to_move() {
    let game = Connect4::new();
    assert!(game.get_grid().iter().flatten().all(|c| c.is_none()));
    assert_eq!(game.winner(), None);
    assert!(!game.is_draw());
    assert_eq!(game.status(), Outcome::Ongoing);
    assert_eq!(game.evaluate_board(), 0);
}

#[test]
fn immediate_win_on_bottom_row() {
    let mut game = Connect4::new();
    fill_bottom_row(&mut game, &[0, 1, 2], Piece::R);
    assert_eq!(game.winner(), None);
    assert!(!game.is_over());
    assert_eq!(game.place_piece(3, Piece::R), Some(5));
    assert_eq!(game.winner(), Some(Player::Red));
    assert!(game.is_over());
    assert_eq!(game.status(), Outcome::Win(Player::Red));
}

#[test]
fn blocked_column_rejects_seventh_piece() {
    let mut game = Connect4::new();
    for i in 0..6 {
        let piece = if i % 2 == 0 { Piece::R } else { Piece::Y };
        assert_eq!(game.place_piece(2, piece), Some(5 - i));
    }
    assert_eq!(game.top_row(2), FULL_COLUMN);
    let before = game.get_grid();
    assert_eq!(game.place_piece(2, Piece::R), None);
    assert_eq!(game.get_grid(), before);
    assert!(!game.user_move(2));
    assert_eq!(game.get_grid(), before);
}

#[test]
fn user_move_alternates_sides() {
    let mut game = Connect4::new();
    assert!(game.user_move(3));
    assert!(game.user_move(3));
    let grid = game.get_grid();
    assert_eq!(grid[5][3], Some(Piece::R));
    assert_eq!(grid[4][3], Some(Piece::Y));
    assert_eq!(game.top_row(3), 3);
}

#[test]
fn user_move_out_of_range_changes_nothing() {
    let mut game = Connect4::new();
    assert!(!game.user_move(7));
    assert!(!game.user_move(100));
    assert_eq!(count_pieces(&game), 0);
    assert!(game.user_move(0));
    assert_eq!(game.get_grid()[5][0], Some(Piece::R));
}

#[test]
fn vertical_and_diagonal_wins() {
    let mut game = Connect4::new();
    for _ in 0..4 {
        game.place_piece(6, Piece::Y);
    }
    assert_eq!(game.winner(), Some(Player::Yellow));

    let mut game = Connect4::new();
    for c in 0..4usize {
        for _ in 0..c {
            game.place_piece(c, Piece::Y);
        }
        game.place_piece(c, Piece::R);
    }
    assert_eq!(game.winner(), Some(Player::Red));
}

#[test]
fn draw_on_full_grid_without_a_line() {
    let mut game = Connect4::new();
    for c in 0..7usize {
        for r in (0..6usize).rev() {
            let piece = if (c / 2 + r) % 2 == 0 { Piece::R } else { Piece::Y };
            assert_eq!(game.place_piece(c, piece), Some(r));
        }
    }
    assert!(game.is_draw());
    assert_eq!(game.winner(), None);
    assert_eq!(game.status(), Outcome::Draw);
    assert!(!game.ai_move(2));
}

#[test]
fn line_scores() {
    let game = Connect4::new();
    let (r, y) = (Some(Piece::R), Some(Piece::Y));
    assert_eq!(game.get_score(&[r, r, r, r]), 50000);
    assert_eq!(game.get_score(&[y, y, y, y]), -50000);
    assert_eq!(game.get_score(&[r, r, r, None]), 1000);
    assert_eq!(game.get_score(&[None, y, y, y]), -1000);
    assert_eq!(game.get_score(&[r, None, r, None]), 100);
    assert_eq!(game.get_score(&[None, None, y, None]), -10);
    assert_eq!(game.get_score(&[r, y, None, None]), 0);
    assert_eq!(game.get_score(&[None, None, None, None]), 0);
}

#[test]
fn check_win_needs_four_equal_pieces() {
    let (r, y) = (Some(Piece::R), Some(Piece::Y));
    assert!(Connect4::check_win(&[r, r, r, r]));
    assert!(Connect4::check_win(&[y, y, y, y]));
    assert!(!Connect4::check_win(&[r, r, r, y]));
    assert!(!Connect4::check_win(&[None, None, None, None]));
}

#[test]
fn evaluation_counts_lines_through_a_piece() {
    let mut game = Connect4::new();
    game.place_piece(3, Piece::R);
    assert_eq!(game.evaluate_board(), 130);
    let mut game = Connect4::new();
    game.place_piece(0, Piece::R);
    game.place_piece(1, Piece::Y);
    assert_eq!(game.evaluate_board(), -20);
    let mut game = Connect4::new();
    fill_bottom_row(&mut game, &[0, 1, 2], Piece::R);
    assert_eq!(game.evaluate_board(), 1320);
}

#[test]
fn search_at_depth_zero_is_the_evaluation() {
    let mut game = Connect4::new();
    game.place_piece(3, Piece::R);
    game.place_piece(4, Piece::Y);
    let before = game.get_grid();
    let score = game.evaluate_board();
    assert_eq!(game.minimax(0, Piece::R), (0, score));
    assert_eq!(game.minimax(0, Piece::Y), (0, score));
    assert_eq!(game.get_grid(), before);
}

#[test]
fn search_takes_the_win_and_the_block() {
    let mut game = Connect4::new();
    fill_bottom_row(&mut game, &[0, 1, 2], Piece::R);
    let before = game.get_grid();
    assert_eq!(game.minimax(1, Piece::R), (3, 51410));
    assert_eq!(game.minimax(1, Piece::Y), (3, 110));
    assert_eq!(game.minimax(2, Piece::Y), (3, 690));
    assert_eq!(game.get_grid(), before);
}

#[test]
fn search_is_deterministic() {
    let mut game = Connect4::new();
    game.place_piece(2, Piece::R);
    game.place_piece(3, Piece::Y);
    let before = game.get_grid();
    let first = game.minimax(2, Piece::R);
    let second = game.minimax(2, Piece::R);
    assert_eq!(first, second);
    assert_eq!(game.get_grid(), before);
    assert_eq!(Connect4::new().minimax(2, Piece::Y), (3, 10));
    assert_eq!(Connect4::new().minimax(1, Piece::Y), (3, -130));
}

#[test]
fn ai_move_plays_the_searched_column() {
    let mut game = Connect4::new();
    assert!(game.user_move(0));
    assert!(game.ai_move(4));
    assert!(game.user_move(1));
    let mut probe = game.clone();
    let (col, _) = probe.minimax(2, Piece::Y);
    let row = game.top_row(col);
    assert!(game.ai_move(4));
    assert_eq!(count_pieces(&game), 4);
    assert_eq!(game.get_grid()[row][col], Some(Piece::Y));
    assert!(game.user_move(col));
}

#[test]
fn random_ai_move_is_legal() {
    for _ in 0..20 {
        let mut game = Connect4::new();
        for i in 0..6 {
            game.place_piece(0, if i % 2 == 0 { Piece::R } else { Piece::Y });
        }
        assert!(game.ai_move(1));
        assert_eq!(count_pieces(&game), 7);
        assert_eq!(game.top_row(0), FULL_COLUMN);
        let before = game.get_grid();
        let col = (0..7).find(|&c| game.top_row(c) != FULL_COLUMN).unwrap();
        let row = game.top_row(col);
        assert!(game.user_move(col));
        assert_eq!(game.get_grid()[row][col], Some(Piece::Y));
        assert_ne!(game.get_grid(), before);
    }
}

#[test]
fn ai_move_does_nothing_after_a_win() {
    let mut game = Connect4::new();
    fill_bottom_row(&mut game, &[0, 1, 2, 3], Piece::R);
    let before = game.get_grid();
    assert!(!game.ai_move(1));
    assert!(!game.ai_move(2));
    assert_eq!(game.get_grid(), before);
}

#[test]
fn remove_restores_the_grid() {
    let mut game = Connect4::new();
    game.place_piece(4, Piece::R);
    let before = game.get_grid();
    let row = game.place_piece(4, Piece::Y).unwrap();
    assert_eq!(row, 4);
    game.remove_piece(row, 4);
    assert_eq!(game.get_grid(), before);
}

#[test]
fn piece_converts_to_its_side() {
    assert_eq!(Player::from(Piece::R), Player::Red);
    assert_eq!(Player::from(Piece::Y), Player::Yellow);
}

#[test]
fn place_out_of_range_fails_quietly() {
    let mut game = Connect4::new();
    assert_eq!(game.place_piece(7, Piece::R), None);
    assert_eq!(count_pieces(&game), 0);
}

#[test]
fn moves_after_a_win_are_rejected() {
    let mut game = Connect4::new();
    fill_bottom_row(&mut game, &[0, 1, 2, 3], Piece::R);
    let before = game.get_grid();
    assert!(!game.user_move(5));
    assert!(!game.play_turn(5, 2));
    assert_eq!(game.get_grid(), before);
}

#[test]
fn play_turn_answers_with_the_computer() {
    let mut game = Connect4::new();
    assert!(game.play_turn(0, 2));
    assert_eq!(count_pieces(&game), 2);
    assert_eq!(game.get_grid()[5][0], Some(Piece::R));
    let mut probe = Connect4::new();
    probe.user_move(0);
    let (col, _) = probe.minimax(1, Piece::Y);
    let row = probe.top_row(col);
    assert_eq!(game.get_grid()[row][col], Some(Piece::Y));
    assert!(!game.play_turn(9, 2));
    assert_eq!(count_pieces(&game), 2);
}

#[test]
fn level_depths() {
    assert_eq!(level_depth(2), 1);
    assert_eq!(level_depth(4), 2);
    assert_eq!(level_depth(3), 1);
}
