//! The game state machine: player commands, the gravity tick, locking,
//! scoring, difficulty progression, and the running/over phase.

use vstd::prelude::*;

use crate::board::Board;
use crate::board::Cell;
use crate::board::HEIGHT;
use crate::board::WIDTH;
use crate::board::cell_blocked;
use crate::board::cleared_grid;
use crate::board::clear_lines;
use crate::board::collides;
use crate::board::create_empty_board;
use crate::board::drop_steps;
use crate::board::kept_rows;
use crate::board::lock_piece;
use crate::board::locked_grid;
use crate::board::piece_collides;
use crate::board::placement_blocked;
use crate::board::placement_collides;
use crate::piece::Piece;
use crate::piece::is_spawn;
use crate::piece::piece_moved;
use crate::piece::rotate_clockwise;
use crate::piece::rotated_cw;
use crate::piece::same_piece;

verus! {

/// Base delay between automatic descents, in milliseconds.
pub const BASE_INTERVAL_MS: u64 = 500;

/// The shortest the delay between automatic descents ever gets.
pub const MIN_INTERVAL_MS: u64 = 100;

/// Every SCORE_STEP points shorten the delay by one decrement.
pub const SCORE_STEP: u64 = 500;

/// By how much each step shortens the delay, in milliseconds.
pub const STEP_DECREMENT_MS: u64 = 20;

/// The game phase: commands and ticks act only while `Running`; `Over` is
/// terminal and freezes the whole state.
#[derive(Clone, Copy, PartialEq, Eq, Structural, Debug)]
pub enum Phase {
    Running,
    Over,
}

/// The abstract command vocabulary the engine consumes; how key events are
/// captured and decoded is the caller's business.
#[derive(Clone, Copy, PartialEq, Eq, Structural, Debug)]
pub enum Command {
    MoveLeft,
    MoveRight,
    SoftDrop,
    Rotate,
    HardDrop,
    Quit,
}

/// Score addition: the counter saturates instead of wrapping, so it never
/// decreases.
pub open spec fn sat_add(score: u64, delta: int) -> u64 {
    if score + delta > u64::MAX {
        u64::MAX
    } else {
        (score + delta) as u64
    }
}

/// The bonus for clearing n rows at once: 100 * 2^(n - 1); nothing for 0.
pub open spec fn line_bonus(n: nat) -> nat {
    if n == 0 {
        0
    } else {
        100 * vstd::arithmetic::power2::pow2((n - 1) as nat)
    }
}

/// The gravity interval as a function of score: the base delay, shortened by
/// one decrement per SCORE_STEP points, never below the minimum.
pub open spec fn interval_of(score: u64) -> u64 {
    let shortened = BASE_INTERVAL_MS - (score as int / SCORE_STEP as int) * (
    STEP_DECREMENT_MS as int);
    if shortened <= MIN_INTERVAL_MS {
        MIN_INTERVAL_MS
    } else {
        shortened as u64
    }
}

/// Law: however large the score grows, the gravity interval never drops
/// below the configured minimum, nor rises above the base delay.
pub proof fn lemma_interval_floor(score: u64)
    ensures
        MIN_INTERVAL_MS <= interval_of(score) <= BASE_INTERVAL_MS,
{
}

/// Law: the bonus for clearing one, two, three or four rows in one lock is
/// exactly 100, 200, 400 and 800 points.
pub proof fn lemma_bonus_literals()
    ensures
        line_bonus(0) == 0,
        line_bonus(1) == 100,
        line_bonus(2) == 200,
        line_bonus(3) == 400,
        line_bonus(4) == 800,
{
    vstd::arithmetic::power2::lemma2_to64();
}

/// The gravity interval owed to a score, as executable code.
pub fn compute_interval(score: u64) -> (ms: u64)
    ensures
        ms == interval_of(score),
{
    let steps = score / SCORE_STEP;
    if steps >= 20 {
        MIN_INTERVAL_MS
    } else {
        let shortened = BASE_INTERVAL_MS - steps * STEP_DECREMENT_MS;
        if shortened <= MIN_INTERVAL_MS {
            MIN_INTERVAL_MS
        } else {
            shortened
        }
    }
}

/// The bonus owed to a clear of `cleared` rows, as executable code.
fn bonus_for(cleared: usize) -> (b: u64)
    requires
        cleared <= HEIGHT,
    ensures
        b == line_bonus(cleared as nat),
{
    if cleared == 0 {
        0
    } else {
        let sh = (cleared - 1) as u64;
        proof {
            vstd::arithmetic::power2::lemma2_to64();
            vstd::bits::lemma_u64_shl_is_mul(100u64, sh);
        }
        100u64 << sh
    }
}

/// Saturating addition chains collapse: adding a then b saturates exactly
/// like adding a + b at once.
proof fn lemma_sat_add_chain(s: u64, a: int, b: int)
    requires
        a >= 0,
        b >= 0,
    ensures
        sat_add(sat_add(s, a), b) == sat_add(s, a + b),
{
}

/// The grid after the piece locks with its origin row at `rest_y` and the
/// full rows clear.
pub open spec fn grid_after_lock(g: Seq<Seq<Cell>>, p: Piece, rest_y: int) -> Seq<Seq<Cell>> {
    cleared_grid(locked_grid(g, p.blocks@, p.x as int, rest_y, p.id))
}

/// How many rows that lock clears.
pub open spec fn rows_cleared(g: Seq<Seq<Cell>>, p: Piece, rest_y: int) -> int {
    let lg = locked_grid(g, p.blocks@, p.x as int, rest_y, p.id);
    lg.len() - kept_rows(lg).len()
}

/// The whole game: the stack, the falling piece, the preview piece, the
/// score, the current gravity interval, and the phase.
pub struct GameState {
    pub board: Board,
    pub current: Piece,
    pub next: Piece,
    pub score: u64,
    pub gravity_ms: u64,
    pub phase: Phase,
}

impl GameState {
    /// The board grid.
    pub open spec fn grid(self) -> Seq<Seq<Cell>> {
        self.board.grid()
    }

    /// Validity: a proper board, valid pieces, and, while the game runs, an
    /// active piece on a legal placement.
    pub open spec fn wf(self) -> bool {
        &&& self.board.wf()
        &&& self.current.wf()
        &&& self.next.wf()
        &&& (self.phase is Running ==> !piece_collides(self.grid(), self.current))
    }
}

/// What a lock at the piece's current position does: the piece's cells join
/// the stack, full rows clear, the clear bonus joins the score, the preview
/// piece becomes the active piece, a fresh random piece becomes the preview,
/// and the game ends exactly when the new active piece spawns blocked.
pub open spec fn lock_step_post(pre: GameState, post: GameState) -> bool {
    let n = rows_cleared(pre.grid(), pre.current, pre.current.y as int);
    &&& post.board.grid() == grid_after_lock(pre.grid(), pre.current, pre.current.y as int)
    &&& post.score == sat_add(pre.score, line_bonus(n as nat) as int)
    &&& same_piece(post.current, pre.next)
    &&& is_spawn(post.next)
    &&& post.gravity_ms == pre.gravity_ms
    &&& (post.phase is Over <==> piece_collides(post.board.grid(), post.current))
}

impl GameState {
    /// Lock the active piece where it rests, clear lines, award the bonus,
    /// and bring in the next piece; the game ends if that piece spawns
    /// blocked.
    fn lock_current(&mut self)
        requires
            old(self).wf(),
            old(self).phase is Running,
        ensures
            final(self).wf(),
            lock_step_post(*old(self), *final(self)),
            final(self).score >= old(self).score,
    {
        lock_piece(&mut self.board, &self.current);
        let cleared = clear_lines(&mut self.board);
        let bonus = bonus_for(cleared);
        self.score = self.score.saturating_add(bonus);
        core::mem::swap(&mut self.current, &mut self.next);
        self.next = Piece::random_spawn();
        if collides(&self.board, &self.current) {
            self.phase = Phase::Over;
        }
    }
}

/// A horizontal step: while running, the piece shifts by dx when the shifted
/// placement is legal and stays put otherwise; nothing else changes.
pub open spec fn horizontal_move_post(pre: GameState, post: GameState, dx: int) -> bool {
    if pre.phase is Over {
        post == pre
    } else {
        &&& post.board.grid() == pre.grid()
        &&& same_piece(post.next, pre.next)
        &&& post.score == pre.score
        &&& post.gravity_ms == pre.gravity_ms
        &&& post.phase == pre.phase
        &&& if !placement_collides(
            pre.grid(),
            pre.current.blocks@,
            pre.current.x + dx,
            pre.current.y as int,
        ) {
            piece_moved(pre.current, post.current, dx, 0)
        } else {
            same_piece(post.current, pre.current)
        }
    }
}

/// A soft drop: while running, the piece descends one row and one point
/// joins the score when the lower placement is legal; otherwise nothing
/// happens (in particular, a blocked soft drop does not lock the piece).
pub open spec fn soft_drop_post(pre: GameState, post: GameState) -> bool {
    if pre.phase is Over {
        post == pre
    } else {
        &&& post.board.grid() == pre.grid()
        &&& same_piece(post.next, pre.next)
        &&& post.gravity_ms == pre.gravity_ms
        &&& post.phase == pre.phase
        &&& if !placement_collides(
            pre.grid(),
            pre.current.blocks@,
            pre.current.x as int,
            pre.current.y + 1,
        ) {
            piece_moved(pre.current, post.current, 0, 1) && post.score == sat_add(pre.score, 1)
        } else {
            same_piece(post.current, pre.current) && post.score == pre.score
        }
    }
}

/// `q` is `p` rotated clockwise and kicked `kick` columns sideways.
pub open spec fn rotated_to(p: Piece, q: Piece, kick: int) -> bool {
    &&& q.blocks@ == rotated_cw(p.blocks@)
    &&& q.x == p.x + kick
    &&& q.y == p.y
    &&& q.id == p.id
}

/// A rotation: while running, the piece turns clockwise and the kick offsets
/// 0, -1, +1, -2, +2 are tried in exactly that order; the first offset whose
/// placement is legal wins, and if none is legal the piece is unchanged.
pub open spec fn rotate_post(pre: GameState, post: GameState) -> bool {
    if pre.phase is Over {
        post == pre
    } else {
        &&& post.board.grid() == pre.grid()
        &&& same_piece(post.next, pre.next)
        &&& post.score == pre.score
        &&& post.gravity_ms == pre.gravity_ms
        &&& post.phase == pre.phase
        &&& ({
            let g = pre.grid();
            let rb = rotated_cw(pre.current.blocks@);
            let x = pre.current.x as int;
            let y = pre.current.y as int;
            if !placement_collides(g, rb, x, y) {
                rotated_to(pre.current, post.current, 0)
            } else if !placement_collides(g, rb, x - 1, y) {
                rotated_to(pre.current, post.current, -1)
            } else if !placement_collides(g, rb, x + 1, y) {
                rotated_to(pre.current, post.current, 1)
            } else if !placement_collides(g, rb, x - 2, y) {
                rotated_to(pre.current, post.current, -2)
            } else if !placement_collides(g, rb, x + 2, y) {
                rotated_to(pre.current, post.current, 2)
            } else {
                same_piece(post.current, pre.current)
            }
        })
    }
}

/// A hard drop: while running, the piece descends as far as it legally can,
/// two points per row join the score, and the piece locks where it rests
/// (with everything a lock entails).
pub open spec fn hard_drop_post(pre: GameState, post: GameState) -> bool {
    if pre.phase is Over {
        post == pre
    } else {
        let g0 = pre.grid();
        let p0 = pre.current;
        let d = drop_steps(g0, p0.blocks@, p0.x as int, p0.y as int);
        let n = rows_cleared(g0, p0, p0.y + d);
        &&& post.board.grid() == grid_after_lock(g0, p0, p0.y + d)
        &&& post.score == sat_add(pre.score, 2 * d + line_bonus(n as nat))
        &&& same_piece(post.current, pre.next)
        &&& is_spawn(post.next)
        &&& post.gravity_ms == pre.gravity_ms
        &&& (post.phase is Over <==> piece_collides(post.board.grid(), post.current))
    }
}

/// A gravity tick: while running, the piece descends one row for free when
/// it can; when it cannot, it locks where it stands (with everything a lock
/// entails) and, if the game is still running, the gravity interval is
/// recomputed from the new score.
pub open spec fn gravity_tick_post(pre: GameState, post: GameState) -> bool {
    if pre.phase is Over {
        post == pre
    } else {
        let g0 = pre.grid();
        let p0 = pre.current;
        if !placement_collides(g0, p0.blocks@, p0.x as int, p0.y + 1) {
            &&& post.board.grid() == g0
            &&& piece_moved(p0, post.current, 0, 1)
            &&& same_piece(post.next, pre.next)
            &&& post.score == pre.score
            &&& post.gravity_ms == pre.gravity_ms
            &&& post.phase == pre.phase
        } else {
            let n = rows_cleared(g0, p0, p0.y as int);
            &&& post.board.grid() == grid_after_lock(g0, p0, p0.y as int)
            &&& post.score == sat_add(pre.score, line_bonus(n as nat) as int)
            &&& same_piece(post.current, pre.next)
            &&& is_spawn(post.next)
            &&& (post.phase is Over <==> piece_collides(post.board.grid(), post.current))
            &&& (post.phase is Running ==> post.gravity_ms == interval_of(post.score))
            &&& (post.phase is Over ==> post.gravity_ms == pre.gravity_ms)
        }
    }
}

/// Quitting: the phase becomes `Over`; nothing else changes, and in
/// particular nothing is scored or locked.
pub open spec fn quit_post(pre: GameState, post: GameState) -> bool {
    &&& post.board.grid() == pre.grid()
    &&& same_piece(post.current, pre.current)
    &&& same_piece(post.next, pre.next)
    &&& post.score == pre.score
    &&& post.gravity_ms == pre.gravity_ms
    &&& post.phase is Over
}

/// A spawned piece never collides with an empty board.
proof fn lemma_spawn_safe_on_empty(g: Seq<Seq<Cell>>, p: Piece)
    requires
        g.len() == HEIGHT,
        forall|r: int| 0 <= r < HEIGHT ==> (#[trigger] g[r]).len() == WIDTH,
        forall|r: int, c: int| 0 <= r < HEIGHT && 0 <= c < WIDTH ==> #[trigger] g[r][c] == Cell::Empty,
        is_spawn(p),
    ensures
        !piece_collides(g, p),
{
    let bl = p.blocks@;
    assert forall|i: int| 0 <= i < bl.len() implies !cell_blocked(
        g,
        p.x + (#[trigger] bl[i]).0,
        p.y + bl[i].1,
    ) by {
        assert(-2 <= bl[i].0 <= 1 && 0 <= bl[i].1 <= 1);
        let cx = p.x + bl[i].0;
        let cy = p.y + bl[i].1;
        if cy >= 0 {
            assert(g[cy][cx] == Cell::Empty);
        }
    }
}

impl GameState {
    /// A fresh game: empty board, two freshly spawned pieces, zero score,
    /// the base gravity interval, running.
    pub fn new() -> (s: GameState)
        ensures
            s.wf(),
            s.phase is Running,
            s.score == 0,
            s.gravity_ms == BASE_INTERVAL_MS,
            forall|r: int, c: int|
                0 <= r < HEIGHT && 0 <= c < WIDTH ==> #[trigger] s.grid()[r][c] == Cell::Empty,
            is_spawn(s.current),
            is_spawn(s.next),
    {
        let board = create_empty_board();
        let current = Piece::random_spawn();
        let next = Piece::random_spawn();
        proof {
            lemma_spawn_safe_on_empty(board.grid(), current);
        }
        GameState {
            board,
            current,
            next,
            score: 0,
            gravity_ms: BASE_INTERVAL_MS,
            phase: Phase::Running,
        }
    }

    /// While the game runs, the active piece does not collide; its position
    /// is therefore close to the field.
    proof fn lemma_running_bounds(self)
        requires
            self.wf(),
            self.phase is Running,
        ensures
            -2 <= self.current.x <= 11,
            -100 <= self.current.y <= 21,
    {
        assert(!cell_blocked(
            self.grid(),
            self.current.x + self.current.blocks@[0].0,
            self.current.y + self.current.blocks@[0].1,
        ));
    }

    /// Shift the active piece one column left when that placement is legal.
    pub fn move_left(&mut self)
        requires
            old(self).wf(),
        ensures
            final(self).wf(),
            horizontal_move_post(*old(self), *final(self), -1),
            old(self).phase is Over ==> *final(self) == *old(self),
            final(self).score == old(self).score,
    {
        if self.phase == Phase::Over {
            return ;
        }
        proof {
            self.lemma_running_bounds();
        }
        let nx = self.current.x - 1;
        if !placement_blocked(&self.board, &self.current.blocks, nx, self.current.y) {
            self.current.x = nx;
        }
    }

    /// Shift the active piece one column right when that placement is legal.
    pub fn move_right(&mut self)
        requires
            old(self).wf(),
        ensures
            final(self).wf(),
            horizontal_move_post(*old(self), *final(self), 1),
            old(self).phase is Over ==> *final(self) == *old(self),
            final(self).score == old(self).score,
    {
        if self.phase == Phase::Over {
            return ;
        }
        proof {
            self.lemma_running_bounds();
        }
        let nx = self.current.x + 1;
        if !placement_blocked(&self.board, &self.current.blocks, nx, self.current.y) {
            self.current.x = nx;
        }
    }

    /// Drop the active piece one row for one point when that placement is
    /// legal; a blocked soft drop does nothing (locking is left to gravity
    /// and to the hard drop).
    pub fn soft_drop(&mut self)
        requires
            old(self).wf(),
        ensures
            final(self).wf(),
            soft_drop_post(*old(self), *final(self)),
            old(self).phase is Over ==> *final(self) == *old(self),
            final(self).score >= old(self).score,
    {
        if self.phase == Phase::Over {
            return ;
        }
        proof {
            self.lemma_running_bounds();
        }
        let ny = self.current.y + 1;
        if !placement_blocked(&self.board, &self.current.blocks, self.current.x, ny) {
            self.current.y = ny;
            self.score = self.score.saturating_add(1);
        }
    }

    /// Rotate the active piece clockwise, kicking it sideways by the first
    /// of 0, -1, +1, -2, +2 columns that yields a legal placement; when none
    /// does, the rotation is discarded.
    pub fn rotate(&mut self)
        requires
            old(self).wf(),
        ensures
            final(self).wf(),
            rotate_post(*old(self), *final(self)),
            old(self).phase is Over ==> *final(self) == *old(self),
            final(self).score == old(self).score,
    {
        if self.phase == Phase::Over {
            return ;
        }
        proof {
            self.lemma_running_bounds();
        }
        let rb = rotate_clockwise(&self.current.blocks);
        let x = self.current.x;
        let y = self.current.y;
        if !placement_blocked(&self.board, &rb, x, y) {
            self.current.blocks = rb;
        } else if !placement_blocked(&self.board, &rb, x - 1, y) {
            self.current.blocks = rb;
            self.current.x = x - 1;
        } else if !placement_blocked(&self.board, &rb, x + 1, y) {
            self.current.blocks = rb;
            self.current.x = x + 1;
        } else if !placement_blocked(&self.board, &rb, x - 2, y) {
            self.current.blocks = rb;
            self.current.x = x - 2;
        } else if !placement_blocked(&self.board, &rb, x + 2, y) {
            self.current.blocks = rb;
            self.current.x = x + 2;
        }
    }

    /// End the game at the player's request; nothing is scored or locked.
    pub fn quit(&mut self)
        requires
            old(self).wf(),
        ensures
            final(self).wf(),
            quit_post(*old(self), *final(self)),
            final(self).score == old(self).score,
    {
        self.phase = Phase::Over;
    }

    /// Drop the active piece to its lowest legal position, two points per
    /// row fallen, and lock it there.
    pub fn hard_drop(&mut self)
        requires
            old(self).wf(),
        ensures
            final(self).wf(),
            hard_drop_post(*old(self), *final(self)),
            old(self).phase is Over ==> *final(self) == *old(self),
            final(self).score >= old(self).score,
    {
        if self.phase == Phase::Over {
            return ;
        }
        proof {
            self.lemma_running_bounds();
        }
        let ghost g0 = self.grid();
        let ghost p0 = self.current;
        let ghost s0 = self.score;
        let ghost d_total = drop_steps(g0, p0.blocks@, p0.x as int, p0.y as int);
        while !placement_blocked(
            &self.board,
            &self.current.blocks,
            self.current.x,
            self.current.y + 1,
        )
            invariant
                self.board.wf(),
                self.board.grid() == g0,
                self.current.wf(),
                self.current.blocks@ == p0.blocks@,
                self.current.x == p0.x,
                self.current.id == p0.id,
                p0.y <= self.current.y <= 21,
                !piece_collides(g0, self.current),
                d_total == (self.current.y - p0.y) + drop_steps(
                    g0,
                    p0.blocks@,
                    p0.x as int,
                    self.current.y as int,
                ),
                self.score == sat_add(s0, 2 * (self.current.y - p0.y)),
                same_piece(self.next, old(self).next),
                self.next.wf(),
                self.phase == old(self).phase,
                self.gravity_ms == old(self).gravity_ms,
            decreases 22 - self.current.y,
        {
            proof {
                // the legal placement one row down keeps the piece near the
                // field, and unfolds one descent out of drop_steps
                assert(!cell_blocked(
                    g0,
                    self.current.x + self.current.blocks@[0].0,
                    self.current.y + 1 + self.current.blocks@[0].1,
                ));
            }
            self.current.y = self.current.y + 1;
            self.score = self.score.saturating_add(2);
            proof {
                lemma_sat_add_chain(s0, 2 * (self.current.y - 1 - p0.y), 2);
            }
        }
        proof {
            assert(drop_steps(g0, p0.blocks@, p0.x as int, self.current.y as int)
                == 0);
            assert(d_total == self.current.y - p0.y);
        }
        let ghost mid = *self;
        self.lock_current();
        proof {
            let n = rows_cleared(g0, p0, p0.y + d_total);
            assert(rows_cleared(mid.grid(), mid.current, mid.current.y as int) == n);
            assert(grid_after_lock(mid.grid(), mid.current, mid.current.y as int)
                == grid_after_lock(g0, p0, p0.y + d_total));
            lemma_sat_add_chain(s0, 2 * d_total, line_bonus(n as nat) as int);
        }
    }

    /// One gravity step: descend one row for free, or, when blocked, lock in
    /// place and recompute the gravity interval from the new score.
    pub fn gravity_tick(&mut self)
        requires
            old(self).wf(),
        ensures
            final(self).wf(),
            gravity_tick_post(*old(self), *final(self)),
            old(self).phase is Over ==> *final(self) == *old(self),
            final(self).score >= old(self).score,
    {
        if self.phase == Phase::Over {
            return ;
        }
        proof {
            self.lemma_running_bounds();
        }
        let ny = self.current.y + 1;
        if !placement_blocked(&self.board, &self.current.blocks, self.current.x, ny) {
            self.current.y = ny;
        } else {
            self.lock_current();
            if self.phase == Phase::Running {
                self.gravity_ms = compute_interval(self.score);
            }
        }
    }

    /// Apply one player command.
    pub fn handle_command(&mut self, cmd: Command)
        requires
            old(self).wf(),
        ensures
            final(self).wf(),
            final(self).score >= old(self).score,
            old(self).phase is Over && cmd != Command::Quit ==> *final(self) == *old(self),
            cmd == Command::MoveLeft ==> horizontal_move_post(*old(self), *final(self), -1),
            cmd == Command::MoveRight ==> horizontal_move_post(*old(self), *final(self), 1),
            cmd == Command::SoftDrop ==> soft_drop_post(*old(self), *final(self)),
            cmd == Command::Rotate ==> rotate_post(*old(self), *final(self)),
            cmd == Command::HardDrop ==> hard_drop_post(*old(self), *final(self)),
            cmd == Command::Quit ==> quit_post(*old(self), *final(self)),
    {
        match cmd {
            Command::MoveLeft => self.move_left(),
            Command::MoveRight => self.move_right(),
            Command::SoftDrop => self.soft_drop(),
            Command::Rotate => self.rotate(),
            Command::HardDrop => self.hard_drop(),
            Command::Quit => self.quit(),
        }
    }
}

} // verus!

