use tetris_rust::Cell;
use tetris_rust::Command;
use tetris_rust::GameState;
use tetris_rust::HEIGHT;
use tetris_rust::Phase;
use tetris_rust::Piece;
use tetris_rust::WIDTH;
use tetris_rust::compute_interval;
use tetris_rust::create_empty_board;

fn piece(blocks: Vec<(i32, i32)>, x: i32, y: i32, id: u8) -> Piece {
    Piece { blocks, x, y, id }
}

fn horizontal_i(x: i32, y: i32) -> Piece {
    piece(vec![(-2, 0), (-1, 0), (0, 0), (1, 0)], x, y, 1)
}

fn vertical_i(x: i32, y: i32) -> Piece {
    piece(vec![(0, -2), (0, -1), (0, 0), (0, 1)], x, y, 1)
}

fn o_piece(x: i32, y: i32) -> Piece {
    piece(vec![(0, 0), (1, 0), (0, 1), (1, 1)], x, y, 2)
}

fn state_with(current: Piece) -> GameState {
    GameState {
        board: create_empty_board(),
        current,
        next: o_piece(5, -1),
        score: 0,
        gravity_ms: 500,
        phase: Phase::Running,
    }
}

#[test]
fn end_to_end_hard_drop_of_horizontal_i() {
    let mut s = state_with(horizontal_i(5, -1));
    s.handle_command(Command::HardDrop);
    // fell from row -1 to row 19: 20 rows, 2 points each
    assert_eq!(s.score, 40);
    // locked into the bottom row's four center columns
    for c in 0..WIDTH {
        let expected = if (3..=6).contains(&c) {
            Cell::Filled(1)
        } else {
            Cell::Empty
        };
        assert_eq!(s.board.rows[19][c], expected);
    }
    // only 4 of 10 cells filled: no row cleared
    for r in 0..HEIGHT - 1 {
        for c in 0..WIDTH {
            assert_eq!(s.board.rows[r][c], Cell::Empty);
        }
    }
    // the preview piece became the active piece, and play goes on
    assert_eq!(s.phase, Phase::Running);
    assert_eq!(s.current.id, 2);
    assert_eq!((s.current.x, s.current.y), (5, -1));
}

#[test]
fn hard_drop_clearing_two_rows_adds_exactly_two_hundred() {
    let mut s = state_with(o_piece(5, -1));
    for c in 0..WIDTH {
        if c != 5 && c != 6 {
            s.board.rows[18][c] = Cell::Filled(1);
            s.board.rows[19][c] = Cell::Filled(1);
        }
    }
    s.hard_drop();
    // the O piece fell from y = -1 to y = 18 (19 rows, 2 points each),
    // completed rows 18 and 19, and the clear added exactly 200
    assert_eq!(s.score, 2 * 19 + 200);
    for r in 0..HEIGHT {
        for c in 0..WIDTH {
            assert_eq!(s.board.rows[r][c], Cell::Empty);
        }
    }
}

#[test]
fn hard_drop_clearing_four_rows_adds_exactly_eight_hundred() {
    let mut s = state_with(vertical_i(5, 2));
    for r in 16..HEIGHT {
        for c in 0..WIDTH {
            if c != 5 {
                s.board.rows[r][c] = Cell::Filled(1);
            }
        }
    }
    s.hard_drop();
    // the vertical I fell from y = 2 to y = 18 (16 rows, 2 points each),
    // completed rows 16..=19, and the clear added exactly 800
    assert_eq!(s.score, 2 * 16 + 800);
    for r in 0..HEIGHT {
        for c in 0..WIDTH {
            assert_eq!(s.board.rows[r][c], Cell::Empty);
        }
    }
}

#[test]
fn hard_drop_clearing_one_row_adds_exactly_one_hundred() {
    let mut s = state_with(horizontal_i(5, -1));
    for c in 0..WIDTH {
        if !(3..=6).contains(&c) {
            s.board.rows[19][c] = Cell::Filled(1);
        }
    }
    s.hard_drop();
    assert_eq!(s.score, 2 * 20 + 100);
}

#[test]
fn moves_shift_one_column_and_stop_at_walls() {
    let mut s = state_with(o_piece(5, 10));
    s.handle_command(Command::MoveLeft);
    assert_eq!(s.current.x, 4);
    s.handle_command(Command::MoveRight);
    s.handle_command(Command::MoveRight);
    assert_eq!(s.current.x, 6);
    assert_eq!(s.score, 0);

    // the O piece occupies columns x and x + 1
    let mut left = state_with(o_piece(0, 10));
    left.move_left();
    assert_eq!(left.current.x, 0);
    let mut right = state_with(o_piece(8, 10));
    right.move_right();
    assert_eq!(right.current.x, 8);
}

#[test]
fn soft_drop_descends_for_one_point_or_does_nothing() {
    let mut s = state_with(o_piece(5, 10));
    s.handle_command(Command::SoftDrop);
    assert_eq!(s.current.y, 11);
    assert_eq!(s.score, 1);

    // resting on the floor: a blocked soft drop is a no-op, not a lock
    let mut resting = state_with(o_piece(5, 18));
    resting.soft_drop();
    assert_eq!(resting.current.y, 18);
    assert_eq!(resting.score, 0);
    assert_eq!(resting.phase, Phase::Running);
    assert_eq!(resting.board.rows[18][5], Cell::Empty);
}

#[test]
fn rotation_that_only_fits_one_column_left_kicks_exactly_there() {
    // a vertical I against the right wall: unkicked rotation pokes out at
    // column 10, +1 and +2 poke out further, and a filled cell blocks -2;
    // only the -1 kick fits
    let mut s = state_with(vertical_i(8, 10));
    s.board.rows[10][5] = Cell::Filled(3);
    s.handle_command(Command::Rotate);
    assert_eq!(s.current.x, 7);
    assert_eq!(s.current.y, 10);
    assert_eq!(s.current.blocks, vec![(2, 0), (1, 0), (0, 0), (-1, 0)]);
}

#[test]
fn rotation_prefers_no_kick_when_it_fits() {
    let mut s = state_with(vertical_i(5, 10));
    s.rotate();
    assert_eq!(s.current.x, 5);
    assert_eq!(s.current.blocks, vec![(2, 0), (1, 0), (0, 0), (-1, 0)]);
}

#[test]
fn rotation_with_no_fit_is_discarded() {
    // a vertical I in a one-column well: every horizontal placement collides
    let mut s = state_with(vertical_i(5, 17));
    for r in 14..HEIGHT {
        for c in 0..WIDTH {
            if c != 5 {
                s.board.rows[r][c] = Cell::Filled(1);
            }
        }
    }
    s.rotate();
    assert_eq!(s.current.x, 5);
    assert_eq!(s.current.y, 17);
    assert_eq!(s.current.blocks, vec![(0, -2), (0, -1), (0, 0), (0, 1)]);
}

#[test]
fn gravity_tick_descends_without_scoring() {
    let mut s = state_with(o_piece(5, 10));
    s.gravity_tick();
    assert_eq!(s.current.y, 11);
    assert_eq!(s.score, 0);
    assert_eq!(s.gravity_ms, 500);
}

#[test]
fn gravity_tick_locks_a_blocked_piece_and_respawns() {
    let mut s = state_with(o_piece(3, 18));
    s.gravity_tick();
    assert_eq!(s.board.rows[18][3], Cell::Filled(2));
    assert_eq!(s.board.rows[18][4], Cell::Filled(2));
    assert_eq!(s.board.rows[19][3], Cell::Filled(2));
    assert_eq!(s.board.rows[19][4], Cell::Filled(2));
    assert_eq!(s.score, 0);
    assert_eq!(s.phase, Phase::Running);
    // the preview piece became the active piece
    assert_eq!(s.current.id, 2);
    assert_eq!((s.current.x, s.current.y), (5, -1));
    // a lock recomputes the gravity interval; at score 0 it is the base
    assert_eq!(s.gravity_ms, 500);
}

#[test]
fn gravity_interval_shrinks_with_score_down_to_the_floor() {
    assert_eq!(compute_interval(0), 500);
    assert_eq!(compute_interval(499), 500);
    assert_eq!(compute_interval(500), 480);
    assert_eq!(compute_interval(2500), 400);
    assert_eq!(compute_interval(9999), 120);
    assert_eq!(compute_interval(10000), 100);
    assert_eq!(compute_interval(1_000_000), 100);
    assert_eq!(compute_interval(u64::MAX), 100);
}

#[test]
fn blocked_spawn_ends_the_game_and_freezes_it() {
    // the next piece (an O at columns 5 and 6) will spawn onto filled cells
    let mut s = state_with(o_piece(0, 18));
    s.board.rows[0][5] = Cell::Filled(1);
    s.board.rows[0][6] = Cell::Filled(1);
    s.gravity_tick();
    assert_eq!(s.phase, Phase::Over);

    // once over, no command or tick mutates board, piece or score
    let board_before = s.board.rows.clone();
    let (x, y) = (s.current.x, s.current.y);
    s.handle_command(Command::HardDrop);
    s.handle_command(Command::MoveLeft);
    s.handle_command(Command::SoftDrop);
    s.handle_command(Command::Rotate);
    s.gravity_tick();
    assert_eq!(s.board.rows, board_before);
    assert_eq!((s.current.x, s.current.y), (x, y));
    assert_eq!(s.score, 0);
    assert_eq!(s.phase, Phase::Over);
}

#[test]
fn blocked_hard_drop_spawn_ends_the_game() {
    let mut s = state_with(o_piece(0, 10));
    s.board.rows[0][5] = Cell::Filled(1);
    s.hard_drop();
    assert_eq!(s.phase, Phase::Over);
}

#[test]
fn quit_ends_the_game_without_scoring_or_locking() {
    let mut s = state_with(o_piece(5, 10));
    s.handle_command(Command::Quit);
    assert_eq!(s.phase, Phase::Over);
    assert_eq!(s.score, 0);
    for r in 0..HEIGHT {
        for c in 0..WIDTH {
            assert_eq!(s.board.rows[r][c], Cell::Empty);
        }
    }
}

#[test]
fn score_never_decreases_across_a_session() {
    let mut s = GameState::new();
    let mut last = s.score;
    let commands = [
        Command::MoveLeft,
        Command::Rotate,
        Command::SoftDrop,
        Command::MoveRight,
        Command::HardDrop,
        Command::SoftDrop,
        Command::MoveLeft,
        Command::HardDrop,
        Command::Rotate,
        Command::HardDrop,
    ];
    for cmd in commands {
        s.handle_command(cmd);
        assert!(s.score >= last);
        last = s.score;
        s.gravity_tick();
        assert!(s.score >= last);
        last = s.score;
    }
}

#[test]
fn new_game_starts_empty_running_and_unscored() {
    let s = GameState::new();
    assert_eq!(s.phase, Phase::Running);
    assert_eq!(s.score, 0);
    assert_eq!(s.gravity_ms, 500);
    for r in 0..HEIGHT {
        for c in 0..WIDTH {
            assert_eq!(s.board.rows[r][c], Cell::Empty);
        }
    }
    assert!((1..=7).contains(&s.current.id));
    assert!((1..=7).contains(&s.next.id));
    assert_eq!((s.current.x, s.current.y), (5, -1));
}
