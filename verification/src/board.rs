//! The playing field: a fixed 10 x 20 grid of cells with collision testing,
//! piece locking, and line clearing.

use vstd::prelude::*;

use crate::piece::Piece;
use crate::piece::blocks_wf;

verus! {

/// Width of the playing field, in cells.
pub const WIDTH: usize = 10;

/// Height of the playing field, in cells.
pub const HEIGHT: usize = 20;

/// One cell of the playing field: empty, or filled with the kind identifier
/// (1..=7) of the piece that locked there. The identifier only selects a
/// display color.
#[derive(Clone, Copy, PartialEq, Eq, Structural, Debug)]
pub enum Cell {
    Empty,
    Filled(u8),
}

/// A cell belongs to the locked stack.
pub open spec fn cell_filled(c: Cell) -> bool {
    c is Filled
}

/// A filled cell's kind identifier lies in the valid range 1..=7.
pub open spec fn cell_valid(c: Cell) -> bool {
    c matches Cell::Filled(k) ==> 1 <= k <= 7
}

/// A row is full when every one of its cells is filled.
pub open spec fn row_full(row: Seq<Cell>) -> bool {
    forall|c: int| 0 <= c < WIDTH ==> cell_filled(#[trigger] row[c])
}

/// A row of empty cells.
pub open spec fn empty_row() -> Seq<Cell> {
    Seq::new(WIDTH as nat, |c: int| Cell::Empty)
}

/// The abstract grids this module's functions speak about: HEIGHT rows of
/// WIDTH valid cells, row 0 at the top.
pub open spec fn grid_wf(g: Seq<Seq<Cell>>) -> bool {
    &&& g.len() == HEIGHT
    &&& forall|r: int| 0 <= r < HEIGHT ==> (#[trigger] g[r]).len() == WIDTH
    &&& forall|r: int, c: int|
        0 <= r < HEIGHT && 0 <= c < WIDTH ==> cell_valid(#[trigger] g[r][c])
}

/// The views of a sequence of rows.
pub open spec fn views_of(rows: Seq<Vec<Cell>>) -> Seq<Seq<Cell>> {
    rows.map_values(|r: Vec<Cell>| r@)
}

/// The playing field. Dimensions never change after creation; the grid is
/// mutated only by `lock_piece` and `clear_lines`.
pub struct Board {
    pub rows: Vec<Vec<Cell>>,
}

impl Board {
    /// The grid as a sequence of rows of cells.
    pub open spec fn grid(self) -> Seq<Seq<Cell>> {
        views_of(self.rows@)
    }

    /// Proper dimensions and valid cells.
    pub open spec fn wf(self) -> bool {
        grid_wf(self.grid())
    }
}

/// Whether one absolute cell position is unusable: outside the side walls,
/// below the floor, or overlapping a filled cell. Positions above the
/// visible field (cy < 0) are blocked only by the side walls, which lets a
/// piece spawn partly off-screen and fall into view.
pub open spec fn cell_blocked(g: Seq<Seq<Cell>>, cx: int, cy: int) -> bool {
    ||| cx < 0
    ||| cx >= WIDTH
    ||| cy >= HEIGHT
    ||| (cy >= 0 && cell_filled(g[cy][cx]))
}

/// Whether an offset set placed at (x, y) collides: some cell is out of the
/// walls or floor, or overlaps the stack. The single source of truth for
/// placement legality.
pub open spec fn placement_collides(
    g: Seq<Seq<Cell>>,
    blocks: Seq<(i32, i32)>,
    x: int,
    y: int,
) -> bool {
    exists|i: int|
        0 <= i < blocks.len() && cell_blocked(g, x + (#[trigger] blocks[i]).0, y + blocks[i].1)
}

/// Whether a piece collides with the board in its current placement.
pub open spec fn piece_collides(g: Seq<Seq<Cell>>, p: Piece) -> bool {
    placement_collides(g, p.blocks@, p.x as int, p.y as int)
}

/// A fresh board: proper dimensions, every cell empty.
pub fn create_empty_board() -> (b: Board)
    ensures
        b.wf(),
        forall|r: int, c: int|
            0 <= r < HEIGHT && 0 <= c < WIDTH ==> #[trigger] b.grid()[r][c] == Cell::Empty,
{
    let mut rows: Vec<Vec<Cell>> = Vec::new();
    let mut r: usize = 0;
    while r < HEIGHT
        invariant
            r <= HEIGHT,
            rows@.len() == r,
            forall|i: int| 0 <= i < r ==> (#[trigger] rows@[i])@.len() == WIDTH,
            forall|i: int, c: int|
                0 <= i < r && 0 <= c < WIDTH ==> #[trigger] rows@[i]@[c] == Cell::Empty,
        decreases HEIGHT - r,
    {
        let row = empty_row_vec();
        rows.push(row);
        r = r + 1;
    }
    let b = Board { rows };
    proof {
        assert(forall|i: int| 0 <= i < HEIGHT ==> #[trigger] b.grid()[i] == b.rows@[i]@);
    }
    b
}

/// A row of WIDTH empty cells.
fn empty_row_vec() -> (row: Vec<Cell>)
    ensures
        row@ == empty_row(),
{
    let mut row: Vec<Cell> = Vec::new();
    let mut c: usize = 0;
    while c < WIDTH
        invariant
            c <= WIDTH,
            row@.len() == c,
            forall|j: int| 0 <= j < c ==> #[trigger] row@[j] == Cell::Empty,
        decreases WIDTH - c,
    {
        row.push(Cell::Empty);
        c = c + 1;
    }
    proof {
        assert(row@ =~= empty_row());
    }
    row
}

/// Collision test for an offset set placed at an arbitrary position.
pub fn placement_blocked(board: &Board, blocks: &Vec<(i32, i32)>, x: i32, y: i32) -> (r: bool)
    requires
        board.wf(),
        blocks_wf(blocks@),
        -100 <= x <= 100,
        -100 <= y <= 100,
    ensures
        r == placement_collides(board.grid(), blocks@, x as int, y as int),
{
    let mut i: usize = 0;
    while i < blocks.len()
        invariant
            board.wf(),
            blocks_wf(blocks@),
            -100 <= x <= 100,
            -100 <= y <= 100,
            i <= blocks@.len(),
            forall|j: int|
                0 <= j < i ==> !cell_blocked(
                    board.grid(),
                    x + (#[trigger] blocks@[j]).0,
                    y + blocks@[j].1,
                ),
        decreases blocks@.len() - i,
    {
        let (bx, by) = blocks[i];
        let cx = x + bx;
        let cy = y + by;
        if cx < 0 || cx >= WIDTH as i32 || cy >= HEIGHT as i32 {
            proof {
                assert(cell_blocked(board.grid(), cx as int, cy as int));
            }
            return true;
        }
        if cy >= 0 {
            proof {
                assert(board.grid()[cy as int] == board.rows@[cy as int]@);
                assert(board.grid()[cy as int].len() == WIDTH);
            }
            let cell = board.rows[cy as usize][cx as usize];
            if let Cell::Filled(_) = cell {
                proof {
                    assert(cell_blocked(board.grid(), cx as int, cy as int));
                }
                return true;
            }
        }
        i = i + 1;
    }
    false
}

/// Collision test for a piece in its current placement, exactly as the
/// gameplay rules define it: true if any of the piece's four absolute cells
/// is out of [0, WIDTH) horizontally, at or below HEIGHT vertically, or on a
/// filled cell of the visible field.
pub fn collides(board: &Board, piece: &Piece) -> (r: bool)
    requires
        board.wf(),
        piece.wf(),
    ensures
        r == piece_collides(board.grid(), *piece),
{
    placement_blocked(board, &piece.blocks, piece.x, piece.y)
}

/// How many single-row descents an offset set placed at (x, y) can still
/// make before a further step would collide.
pub open spec fn drop_steps(g: Seq<Seq<Cell>>, blocks: Seq<(i32, i32)>, x: int, y: int) -> int
    decreases HEIGHT + 2 - y
        when blocks_wf(blocks) && y <= HEIGHT + 2
        via drop_steps_decreases
{
    if placement_collides(g, blocks, x, y + 1) {
        0
    } else {
        1 + drop_steps(g, blocks, x, y + 1)
    }
}

#[via_fn]
proof fn drop_steps_decreases(g: Seq<Seq<Cell>>, blocks: Seq<(i32, i32)>, x: int, y: int) {
    if !placement_collides(g, blocks, x, y + 1) {
        // a legal placement one row down keeps the piece near the field
        assert(!cell_blocked(g, x + blocks[0].0, y + 1 + blocks[0].1));
    }
}

/// Where on the grid a piece's cells land: (cx, cy) is one of the four
/// absolute cells of an offset set placed at (x, y).
pub open spec fn covers(blocks: Seq<(i32, i32)>, x: int, y: int, cx: int, cy: int) -> bool {
    exists|i: int|
        0 <= i < blocks.len() && x + (#[trigger] blocks[i]).0 == cx && y + blocks[i].1 == cy
}

/// The grid after a piece locks: every in-range cell the piece covers is
/// filled with its kind; every other cell keeps its value. Piece cells above
/// the visible field (or otherwise out of range) are dropped silently, so a
/// piece locked while partly off-screen cannot corrupt the grid.
pub open spec fn locked_grid(
    g: Seq<Seq<Cell>>,
    blocks: Seq<(i32, i32)>,
    x: int,
    y: int,
    kind: u8,
) -> Seq<Seq<Cell>> {
    Seq::new(
        g.len(),
        |r: int|
            Seq::new(
                g[r].len(),
                |c: int|
                    if covers(blocks, x, y, c, r) {
                        Cell::Filled(kind)
                    } else {
                        g[r][c]
                    },
            ),
    )
}

/// Whether an offset set placed at (x, y) has a cell on (cx, cy).
fn covers_cell(blocks: &Vec<(i32, i32)>, x: i32, y: i32, cx: usize, cy: usize) -> (r: bool)
    requires
        blocks_wf(blocks@),
        -100 <= x <= 100,
        -100 <= y <= 100,
        cx < WIDTH,
        cy < HEIGHT,
    ensures
        r == covers(blocks@, x as int, y as int, cx as int, cy as int),
{
    let mut i: usize = 0;
    while i < blocks.len()
        invariant
            blocks_wf(blocks@),
            -100 <= x <= 100,
            -100 <= y <= 100,
            cx < WIDTH,
            cy < HEIGHT,
            i <= blocks@.len(),
            forall|j: int|
                0 <= j < i ==> !(x + (#[trigger] blocks@[j]).0 == cx && y + blocks@[j].1 == cy),
        decreases blocks@.len() - i,
    {
        let (bx, by) = blocks[i];
        if x + bx == cx as i32 && y + by == cy as i32 {
            return true;
        }
        i = i + 1;
    }
    false
}

/// Lock a piece into the board: each of its absolute cells that lies inside
/// the grid becomes filled with the piece's kind; cells above the field are
/// dropped silently.
pub fn lock_piece(board: &mut Board, piece: &Piece)
    requires
        old(board).wf(),
        piece.wf(),
    ensures
        final(board).wf(),
        final(board).grid() == locked_grid(
            old(board).grid(),
            piece.blocks@,
            piece.x as int,
            piece.y as int,
            piece.id,
        ),
{
    let ghost g0 = board.grid();
    let ghost target = locked_grid(g0, piece.blocks@, piece.x as int, piece.y as int, piece.id);
    let mut new_rows: Vec<Vec<Cell>> = Vec::new();
    let mut r: usize = 0;
    while r < HEIGHT
        invariant
            board.wf(),
            board.grid() == g0,
            piece.wf(),
            target == locked_grid(g0, piece.blocks@, piece.x as int, piece.y as int, piece.id),
            r <= HEIGHT,
            new_rows@.len() == r,
            forall|i: int| 0 <= i < r ==> (#[trigger] new_rows@[i])@ == target[i],
        decreases HEIGHT - r,
    {
        let mut row: Vec<Cell> = Vec::new();
        let mut c: usize = 0;
        while c < WIDTH
            invariant
                board.wf(),
                board.grid() == g0,
                piece.wf(),
                target == locked_grid(g0, piece.blocks@, piece.x as int, piece.y as int, piece.id),
                r < HEIGHT,
                c <= WIDTH,
                row@.len() == c,
                forall|j: int| 0 <= j < c ==> #[trigger] row@[j] == target[r as int][j],
            decreases WIDTH - c,
        {
            let cell = if covers_cell(&piece.blocks, piece.x, piece.y, c, r) {
                Cell::Filled(piece.id)
            } else {
                proof {
                    assert(board.grid()[r as int] == board.rows@[r as int]@);
                    assert(board.grid()[r as int].len() == WIDTH);
                }
                board.rows[r][c]
            };
            row.push(cell);
            c = c + 1;
        }
        proof {
            assert(row@ =~= target[r as int]);
        }
        new_rows.push(row);
        r = r + 1;
    }
    board.rows = new_rows;
    proof {
        assert(board.grid() =~= target);
        assert forall|i: int, c: int|
            0 <= i < HEIGHT && 0 <= c < WIDTH implies cell_valid(#[trigger] board.grid()[i][c]) by {
            assert(cell_valid(g0[i][c]));
        }
    }
}

/// The rows that survive a clear: the rows that are not full, in order.
pub open spec fn kept_rows(g: Seq<Seq<Cell>>) -> Seq<Seq<Cell>>
    decreases g.len(),
{
    if g.len() == 0 {
        g
    } else if row_full(g.last()) {
        kept_rows(g.drop_last())
    } else {
        kept_rows(g.drop_last()).push(g.last())
    }
}

/// The grid after a clear: the vacated empty rows on top, then the surviving
/// rows, their relative order preserved.
pub open spec fn cleared_grid(g: Seq<Seq<Cell>>) -> Seq<Seq<Cell>> {
    Seq::new((g.len() - kept_rows(g).len()) as nat, |r: int| empty_row()) + kept_rows(g)
}

/// A clear never grows the grid: at most every row is removed.
pub proof fn lemma_kept_rows_len(g: Seq<Seq<Cell>>)
    ensures
        kept_rows(g).len() <= g.len(),
    decreases g.len(),
{
    if g.len() > 0 {
        lemma_kept_rows_len(g.drop_last());
    }
}

/// Unfolding step of `kept_rows` at the bottom row.
proof fn lemma_kept_rows_push(g: Seq<Seq<Cell>>, row: Seq<Cell>)
    ensures
        kept_rows(g.push(row)) == if row_full(row) {
            kept_rows(g)
        } else {
            kept_rows(g).push(row)
        },
{
    assert(g.push(row).drop_last() =~= g);
    assert(g.push(row).last() == row);
}

/// Every surviving row is one of the grid's rows.
proof fn lemma_kept_rows_from(g: Seq<Seq<Cell>>)
    ensures
        forall|k: int|
            0 <= k < kept_rows(g).len() ==> exists|r: int|
                0 <= r < g.len() && #[trigger] kept_rows(g)[k] == g[r],
    decreases g.len(),
{
    if g.len() > 0 {
        let dl = g.drop_last();
        lemma_kept_rows_from(dl);
        assert forall|k: int| 0 <= k < kept_rows(g).len() implies exists|r: int|
            0 <= r < g.len() && #[trigger] kept_rows(g)[k] == g[r] by {
            if k < kept_rows(dl).len() {
                let r0 = choose|r: int| 0 <= r < dl.len() && #[trigger] kept_rows(dl)[k] == dl[r];
                assert(dl[r0] == g[r0]);
                assert(kept_rows(g)[k] == g[r0]);
            } else {
                assert(kept_rows(g)[k] == g[g.len() - 1]);
            }
        }
    }
}

/// A grid without a full row survives a clear unchanged.
proof fn lemma_kept_rows_none_full(g: Seq<Seq<Cell>>)
    requires
        forall|r: int| 0 <= r < g.len() ==> !row_full(#[trigger] g[r]),
    ensures
        kept_rows(g) == g,
    decreases g.len(),
{
    if g.len() > 0 {
        let dl = g.drop_last();
        assert(forall|r: int| 0 <= r < dl.len() ==> #[trigger] dl[r] == g[r]);
        lemma_kept_rows_none_full(dl);
        assert(kept_rows(g) =~= g);
    } else {
        assert(kept_rows(g) =~= g);
    }
}

/// Whether every cell of a row is filled.
fn row_is_full(row: &Vec<Cell>) -> (r: bool)
    requires
        row@.len() == WIDTH,
    ensures
        r == row_full(row@),
{
    let mut c: usize = 0;
    while c < WIDTH
        invariant
            c <= WIDTH,
            row@.len() == WIDTH,
            forall|j: int| 0 <= j < c ==> cell_filled(#[trigger] row@[j]),
        decreases WIDTH - c,
    {
        if let Cell::Empty = row[c] {
            proof {
                assert(!cell_filled(row@[c as int]));
            }
            return false;
        }
        c = c + 1;
    }
    true
}

/// A cell-for-cell copy of a row.
fn copy_row(row: &Vec<Cell>) -> (r: Vec<Cell>)
    ensures
        r@ == row@,
{
    let mut r: Vec<Cell> = Vec::new();
    let mut c: usize = 0;
    while c < row.len()
        invariant
            c <= row@.len(),
            r@.len() == c,
            forall|j: int| 0 <= j < c ==> #[trigger] r@[j] == row@[j],
        decreases row@.len() - c,
    {
        r.push(row[c]);
        c = c + 1;
    }
    proof {
        assert(r@ =~= row@);
    }
    r
}

/// Remove every full row, scanning each row once; the rows above a removed
/// row shift down, their order preserved, and the vacated rows at the top
/// become empty. Returns how many rows were removed.
pub fn clear_lines(board: &mut Board) -> (cleared: usize)
    requires
        old(board).wf(),
    ensures
        final(board).wf(),
        final(board).grid() == cleared_grid(old(board).grid()),
        cleared == old(board).grid().len() - kept_rows(old(board).grid()).len(),
        cleared <= HEIGHT,
{
    let ghost g0 = board.grid();
    let mut kept: Vec<Vec<Cell>> = Vec::new();
    let mut r: usize = 0;
    while r < HEIGHT
        invariant
            board.wf(),
            board.grid() == g0,
            r <= HEIGHT,
            kept@.len() <= r,
            views_of(kept@) == kept_rows(g0.subrange(0, r as int)),
        decreases HEIGHT - r,
    {
        proof {
            assert(board.grid()[r as int] == board.rows@[r as int]@);
            assert(board.grid()[r as int].len() == WIDTH);
            assert(g0.subrange(0, r as int + 1) =~= g0.subrange(0, r as int).push(g0[r as int]));
            lemma_kept_rows_push(g0.subrange(0, r as int), g0[r as int]);
        }
        if !row_is_full(&board.rows[r]) {
            let row = copy_row(&board.rows[r]);
            kept.push(row);
            proof {
                assert(views_of(kept@) =~= kept_rows(g0.subrange(0, r as int + 1)));
            }
        }
        r = r + 1;
    }
    proof {
        assert(g0.subrange(0, HEIGHT as int) =~= g0);
        lemma_kept_rows_len(g0);
        lemma_kept_rows_from(g0);
    }
    let n_kept = kept.len();
    let cleared = HEIGHT - n_kept;
    let mut new_rows: Vec<Vec<Cell>> = Vec::new();
    let mut i: usize = 0;
    while i < cleared
        invariant
            i <= cleared,
            new_rows@.len() == i,
            forall|j: int| 0 <= j < i ==> (#[trigger] new_rows@[j])@ == empty_row(),
        decreases cleared - i,
    {
        new_rows.push(empty_row_vec());
        i = i + 1;
    }
    let ghost kept_view = views_of(kept@);
    let ghost empties = new_rows@;
    new_rows.append(&mut kept);
    board.rows = new_rows;
    proof {
        assert forall|j: int| 0 <= j < HEIGHT implies #[trigger] board.grid()[j] == cleared_grid(
            g0,
        )[j] by {
            if j < cleared {
                assert(board.grid()[j] == empties[j]@);
            } else {
                assert(board.grid()[j] == kept_view[j - cleared]);
            }
        }
        assert(board.grid() =~= cleared_grid(g0));
        assert forall|j: int, c: int|
            0 <= j < HEIGHT && 0 <= c < WIDTH implies cell_valid(#[trigger] board.grid()[j][c]) by {
            if j >= cleared {
                let k = j - cleared;
                let r0 = choose|r2: int| 0 <= r2 < g0.len() && #[trigger] kept_rows(g0)[k] == g0[r2];
                assert(cell_valid(g0[r0][c]));
            }
        }
        assert forall|j: int| 0 <= j < HEIGHT implies (#[trigger] board.grid()[j]).len()
            == WIDTH by {
            if j >= cleared {
                let k = j - cleared;
                let r0 = choose|r2: int| 0 <= r2 < g0.len() && #[trigger] kept_rows(g0)[k] == g0[r2];
                assert(g0[r0].len() == WIDTH);
            }
        }
    }
    cleared
}

/// A clear of a grid whose only full row is `r` removes exactly that row.
proof fn lemma_kept_rows_single_full(s: Seq<Seq<Cell>>, r: int)
    requires
        0 <= r < s.len(),
        row_full(s[r]),
        forall|j: int| 0 <= j < s.len() && j != r ==> !row_full(#[trigger] s[j]),
    ensures
        kept_rows(s) == s.subrange(0, r) + s.subrange(r + 1, s.len() as int),
    decreases s.len(),
{
    let dl = s.drop_last();
    assert(forall|j: int| 0 <= j < dl.len() ==> #[trigger] dl[j] == s[j]);
    if r == s.len() - 1 {
        lemma_kept_rows_none_full(dl);
        assert(kept_rows(s) =~= s.subrange(0, r) + s.subrange(r + 1, s.len() as int));
    } else {
        lemma_kept_rows_single_full(dl, r);
        assert(kept_rows(s) =~= s.subrange(0, r) + s.subrange(r + 1, s.len() as int));
    }
}

/// Law: locking a piece whose cells are exactly the empty cells of row `r`
/// of a board in play (no row full yet), then clearing, removes exactly that
/// row: the clear count is 1, one empty row appears at the top, the rows
/// above the cleared row shift down by one, and the rows below keep their
/// places. Locking touches no other row.
pub proof fn lemma_lock_then_clear_single_row(g: Seq<Seq<Cell>>, p: Piece, r: int)
    requires
        grid_wf(g),
        p.wf(),
        0 <= r < HEIGHT,
        forall|c: int|
            #![trigger g[r][c]]
            0 <= c < WIDTH && !cell_filled(g[r][c]) ==> covers(
                p.blocks@,
                p.x as int,
                p.y as int,
                c,
                r,
            ),
        forall|cx: int, cy: int|
            covers(p.blocks@, p.x as int, p.y as int, cx, cy) ==> cy == r && 0 <= cx < WIDTH
                && !cell_filled(g[r][cx]),
        forall|j: int| 0 <= j < HEIGHT ==> !row_full(#[trigger] g[j]),
    ensures
        ({
            let lg = locked_grid(g, p.blocks@, p.x as int, p.y as int, p.id);
            &&& row_full(lg[r])
            &&& forall|j: int| 0 <= j < HEIGHT && j != r ==> #[trigger] lg[j] == g[j]
            &&& lg.len() - kept_rows(lg).len() == 1
            &&& cleared_grid(lg) == seq![empty_row()] + lg.subrange(0, r) + lg.subrange(
                r + 1,
                HEIGHT as int,
            )
        }),
{
    let x = p.x as int;
    let y = p.y as int;
    let lg = locked_grid(g, p.blocks@, x, y, p.id);
    assert forall|c: int| 0 <= c < WIDTH implies cell_filled(#[trigger] lg[r][c]) by {
        if !cell_filled(g[r][c]) {
            assert(covers(p.blocks@, x, y, c, r));
        }
    }
    assert forall|j: int| 0 <= j < HEIGHT && j != r implies #[trigger] lg[j] == g[j] by {
        assert forall|c: int| 0 <= c < g[j].len() implies lg[j][c] == g[j][c] by {
            if covers(p.blocks@, x, y, c, j) {
                assert(j == r);
            }
        }
        assert(lg[j] =~= g[j]);
    }
    assert forall|j: int| 0 <= j < lg.len() && j != r implies !row_full(#[trigger] lg[j]) by {
        assert(lg[j] == g[j]);
    }
    lemma_kept_rows_single_full(lg, r);
    assert(cleared_grid(lg) =~= seq![empty_row()] + lg.subrange(0, r) + lg.subrange(
        r + 1,
        HEIGHT as int,
    ));
}

/// Law: a piece cell beyond the side walls or below the floor collides,
/// whatever the board holds. (`i` names the offending cell.)
pub proof fn lemma_out_of_bounds_collides(
    g: Seq<Seq<Cell>>,
    blocks: Seq<(i32, i32)>,
    x: int,
    y: int,
    i: int,
)
    requires
        0 <= i < blocks.len(),
        x + blocks[i].0 < 0 || x + blocks[i].0 >= WIDTH || y + blocks[i].1 >= HEIGHT,
    ensures
        placement_collides(g, blocks, x, y),
{
    assert(cell_blocked(g, x + blocks[i].0, y + blocks[i].1));
}

} // verus!
