use tetris_rust::Board;
use tetris_rust::Cell;
use tetris_rust::HEIGHT;
use tetris_rust::Piece;
use tetris_rust::PieceColor;
use tetris_rust::WIDTH;
use tetris_rust::clear_lines;
use tetris_rust::collides;
use tetris_rust::create_empty_board;
use tetris_rust::lock_piece;
use tetris_rust::piece_color;
use tetris_rust::rotate_clockwise;

fn piece(blocks: Vec<(i32, i32)>, x: i32, y: i32, id: u8) -> Piece {
    Piece { blocks, x, y, id }
}

fn horizontal_i(x: i32, y: i32) -> Piece {
    piece(vec![(-2, 0), (-1, 0), (0, 0), (1, 0)], x, y, 1)
}

#[test]
fn empty_board_dimensions() {
    let b = create_empty_board();
    assert_eq!(b.rows.len(), HEIGHT);
    for r in 0..HEIGHT {
        assert_eq!(b.rows[r].len(), WIDTH);
        for c in 0..WIDTH {
            assert_eq!(b.rows[r][c], Cell::Empty);
        }
    }
}

#[test]
fn rotate_four_times_returns_original_shape() {
    for kind in 0..7usize {
        let rots = Piece::shape_rotations(kind);
        let mut blocks = rots[0].clone();
        for _ in 0..4 {
            blocks = rotate_clockwise(&blocks);
        }
        assert_eq!(blocks, rots[0]);
    }
}

#[test]
fn rotate_cw_applies_transform_in_place() {
    let mut p = horizontal_i(5, 10);
    p.rotate_cw();
    assert_eq!(p.blocks, vec![(0, -2), (0, -1), (0, 0), (0, 1)]);
    assert_eq!((p.x, p.y, p.id), (5, 10, 1));
}

#[test]
fn shape_rotations_gives_four_states_starting_canonical() {
    let rots = Piece::shape_rotations(0);
    assert_eq!(rots.len(), 4);
    assert_eq!(rots[0], vec![(-2, 0), (-1, 0), (0, 0), (1, 0)]);
    assert_eq!(rots[1], rotate_clockwise(&rots[0]));
    assert_eq!(rots[2], rotate_clockwise(&rots[1]));
    assert_eq!(rots[3], rotate_clockwise(&rots[2]));
}

#[test]
fn positions_offsets_by_origin() {
    let p = horizontal_i(5, 10);
    assert_eq!(p.positions(), vec![(3, 10), (4, 10), (5, 10), (6, 10)]);
}

#[test]
fn collides_left_wall() {
    let b = create_empty_board();
    assert!(collides(&b, &horizontal_i(1, 10)));
    assert!(!collides(&b, &horizontal_i(2, 10)));
}

#[test]
fn collides_right_wall() {
    let b = create_empty_board();
    assert!(collides(&b, &horizontal_i(9, 10)));
    assert!(!collides(&b, &horizontal_i(8, 10)));
}

#[test]
fn collides_below_floor() {
    let b = create_empty_board();
    assert!(collides(&b, &horizontal_i(5, 20)));
    assert!(!collides(&b, &horizontal_i(5, 19)));
}

#[test]
fn collides_with_filled_cell() {
    let mut b = create_empty_board();
    b.rows[10][5] = Cell::Filled(3);
    assert!(collides(&b, &horizontal_i(5, 10)));
    assert!(!collides(&b, &horizontal_i(5, 9)));
}

#[test]
fn above_field_never_collides_with_content() {
    let mut b = create_empty_board();
    for c in 0..WIDTH {
        b.rows[0][c] = Cell::Filled(1);
    }
    // all four cells on row -1, over a completely filled top row
    assert!(!collides(&b, &horizontal_i(5, -1)));
    // but the side walls still apply above the field
    assert!(collides(&b, &horizontal_i(0, -1)));
}

#[test]
fn lock_writes_piece_cells_with_kind() {
    let mut b = create_empty_board();
    let p = horizontal_i(5, 19);
    lock_piece(&mut b, &p);
    for c in 0..WIDTH {
        let expected = if (3..=6).contains(&c) {
            Cell::Filled(1)
        } else {
            Cell::Empty
        };
        assert_eq!(b.rows[19][c], expected);
    }
}

#[test]
fn lock_drops_cells_above_the_field() {
    let mut b = create_empty_board();
    // cells on rows -1 and 0: only the row-0 pair is written
    let p = piece(vec![(0, 0), (1, 0), (0, 1), (1, 1)], 5, -1, 2);
    lock_piece(&mut b, &p);
    assert_eq!(b.rows[0][5], Cell::Filled(2));
    assert_eq!(b.rows[0][6], Cell::Filled(2));
    for r in 1..HEIGHT {
        for c in 0..WIDTH {
            assert_eq!(b.rows[r][c], Cell::Empty);
        }
    }
}

#[test]
fn lock_then_clear_removes_completed_row() {
    let mut b = create_empty_board();
    // row 19 is full except the four center columns 3..=6
    for c in 0..WIDTH {
        if !(3..=6).contains(&c) {
            b.rows[19][c] = Cell::Filled(2);
        }
    }
    // markers above the row about to clear
    b.rows[18][0] = Cell::Filled(3);
    b.rows[17][9] = Cell::Filled(4);
    lock_piece(&mut b, &horizontal_i(5, 19));
    let cleared = clear_lines(&mut b);
    assert_eq!(cleared, 1);
    // everything above shifted down by exactly one row
    assert_eq!(b.rows[19][0], Cell::Filled(3));
    assert_eq!(b.rows[18][9], Cell::Filled(4));
    // the vacated top row is empty
    for c in 0..WIDTH {
        assert_eq!(b.rows[0][c], Cell::Empty);
    }
    // nothing else is left
    let filled: usize = b
        .rows
        .iter()
        .map(|row| row.iter().filter(|c| **c != Cell::Empty).count())
        .sum();
    assert_eq!(filled, 2);
}

#[test]
fn clear_lines_empty_board_clears_nothing() {
    let mut b = create_empty_board();
    assert_eq!(clear_lines(&mut b), 0);
}

#[test]
fn clear_lines_keeps_rows_below_a_cleared_row_in_place() {
    let mut b = create_empty_board();
    // row 17 full; rows 18 and 19 partially filled stay at their positions
    for c in 0..WIDTH {
        b.rows[17][c] = Cell::Filled(1);
    }
    b.rows[18][2] = Cell::Filled(5);
    b.rows[19][7] = Cell::Filled(6);
    b.rows[16][4] = Cell::Filled(7);
    let cleared = clear_lines(&mut b);
    assert_eq!(cleared, 1);
    assert_eq!(b.rows[18][2], Cell::Filled(5));
    assert_eq!(b.rows[19][7], Cell::Filled(6));
    // the row above the cleared one moved down by one
    assert_eq!(b.rows[17][4], Cell::Filled(7));
    assert_eq!(b.rows[16][4], Cell::Empty);
}

#[test]
fn clear_lines_all_full_empties_the_board() {
    let mut b = create_empty_board();
    for r in 0..HEIGHT {
        for c in 0..WIDTH {
            b.rows[r][c] = Cell::Filled(1);
        }
    }
    assert_eq!(clear_lines(&mut b), HEIGHT);
    for r in 0..HEIGHT {
        for c in 0..WIDTH {
            assert_eq!(b.rows[r][c], Cell::Empty);
        }
    }
}

#[test]
fn piece_color_maps_kinds() {
    assert_eq!(piece_color(1), PieceColor::Cyan);
    assert_eq!(piece_color(2), PieceColor::Yellow);
    assert_eq!(piece_color(3), PieceColor::Magenta);
    assert_eq!(piece_color(4), PieceColor::Blue);
    assert_eq!(piece_color(5), PieceColor::Red);
    assert_eq!(piece_color(6), PieceColor::Green);
    assert_eq!(piece_color(7), PieceColor::DarkRed);
    assert_eq!(piece_color(0), PieceColor::White);
    assert_eq!(piece_color(8), PieceColor::White);
}

#[test]
fn random_spawn_is_centered_canonical_and_in_range() {
    for _ in 0..50 {
        let p = Piece::random_spawn();
        assert!((1..=7).contains(&p.id));
        assert_eq!((p.x, p.y), (5, -1));
        let rots = Piece::shape_rotations((p.id - 1) as usize);
        assert_eq!(p.blocks, rots[0]);
        assert!(p.is_wf());
    }
}

#[test]
fn spawn_of_each_kind_has_its_canonical_shape() {
    let shapes: Vec<Vec<(i32, i32)>> = vec![
        vec![(-2, 0), (-1, 0), (0, 0), (1, 0)],
        vec![(0, 0), (1, 0), (0, 1), (1, 1)],
        vec![(-1, 0), (0, 0), (1, 0), (0, 1)],
        vec![(-1, 0), (0, 0), (1, 0), (1, 1)],
        vec![(-1, 0), (0, 0), (1, 0), (-1, 1)],
        vec![(-1, 1), (0, 1), (0, 0), (1, 0)],
        vec![(-1, 0), (0, 0), (0, 1), (1, 1)],
    ];
    for kind in 0..7usize {
        let p = Piece::spawn(kind);
        assert_eq!(p.id as usize, kind + 1);
        assert_eq!(p.blocks, shapes[kind]);
    }
}

#[test]
fn is_wf_rejects_bad_pieces() {
    let good = Piece::spawn(0);
    assert!(good.is_wf());
    let bad_id = piece(vec![(0, 0), (1, 0), (0, 1), (1, 1)], 5, 5, 9);
    assert!(!bad_id.is_wf());
    let bad_offset = piece(vec![(0, 0), (1, 0), (0, 1), (3, 1)], 5, 5, 2);
    assert!(!bad_offset.is_wf());
    let bad_count = piece(vec![(0, 0)], 5, 5, 2);
    assert!(!bad_count.is_wf());
}

#[test]
fn board_board_type_is_plain_grid() {
    let b = Board { rows: create_empty_board().rows };
    assert_eq!(b.rows.len(), HEIGHT);
}
