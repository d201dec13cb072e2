//! Piece geometry: the seven tetromino shapes, the clockwise rotation
//! transform, and the falling piece itself.

use vstd::prelude::*;

verus! {

/// Horizontal spawn origin: the middle of the field.
pub const SPAWN_X: i32 = 5;

/// Vertical spawn origin. It sits one row above the visible field, so a new
/// piece enters from the top: its offset-0 cells start hidden on row -1 and
/// its offset-1 cells start on row 0, where a blocked spawn is detected.
pub const SPAWN_Y: i32 = -1;

/// A well-formed offset set: four relative cells, each coordinate within
/// [-2, 2] (the canonical shapes lie in that square and the rotation
/// transform keeps them there).
pub open spec fn blocks_wf(blocks: Seq<(i32, i32)>) -> bool {
    &&& blocks.len() == 4
    &&& forall|i: int|
        0 <= i < blocks.len() ==> -2 <= (#[trigger] blocks[i]).0 <= 2 && -2 <= blocks[i].1 <= 2
}

/// The canonical (unrotated) offsets of each of the seven kinds, by kind
/// index 0..7: I, O, T, J, L, S, Z. The origin (0, 0) is the center of
/// rotation, not necessarily the visual centroid.
pub open spec fn canonical_blocks(kind_index: int) -> Seq<(i32, i32)> {
    if kind_index == 0 {
        seq![(-2i32, 0i32), (-1i32, 0i32), (0i32, 0i32), (1i32, 0i32)]
    } else if kind_index == 1 {
        seq![(0i32, 0i32), (1i32, 0i32), (0i32, 1i32), (1i32, 1i32)]
    } else if kind_index == 2 {
        seq![(-1i32, 0i32), (0i32, 0i32), (1i32, 0i32), (0i32, 1i32)]
    } else if kind_index == 3 {
        seq![(-1i32, 0i32), (0i32, 0i32), (1i32, 0i32), (1i32, 1i32)]
    } else if kind_index == 4 {
        seq![(-1i32, 0i32), (0i32, 0i32), (1i32, 0i32), (-1i32, 1i32)]
    } else if kind_index == 5 {
        seq![(-1i32, 1i32), (0i32, 1i32), (0i32, 0i32), (1i32, 0i32)]
    } else {
        seq![(-1i32, 0i32), (0i32, 0i32), (0i32, 1i32), (1i32, 1i32)]
    }
}

/// The clockwise rotation transform (x, y) -> (-y, x), applied to every
/// offset of the set.
pub open spec fn rotated_cw(blocks: Seq<(i32, i32)>) -> Seq<(i32, i32)> {
    blocks.map_values(|b: (i32, i32)| ((-(b.1 as int)) as i32, b.0))
}

/// The currently falling piece: its kind identifier (1..=7, doubling as the
/// locked-cell color index), its current offset set (reflecting rotation),
/// and the absolute position of the offsets' origin on the board.
pub struct Piece {
    pub blocks: Vec<(i32, i32)>,
    pub x: i32,
    pub y: i32,
    pub id: u8,
}

impl Piece {
    /// Validity: a well-formed offset set, a kind in range, and a position
    /// close enough to the field that absolute cell coordinates cannot
    /// overflow.
    pub open spec fn wf(self) -> bool {
        &&& blocks_wf(self.blocks@)
        &&& 1 <= self.id <= 7
        &&& -100 <= self.x <= 100
        &&& -100 <= self.y <= 100
    }

    /// Runtime check of `wf`, for unverified callers that build pieces by
    /// hand.
    pub fn is_wf(&self) -> (r: bool)
        ensures
            r == self.wf(),
    {
        if !(1 <= self.id && self.id <= 7 && -100 <= self.x && self.x <= 100 && -100 <= self.y
            && self.y <= 100 && self.blocks.len() == 4) {
            return false;
        }
        let mut i: usize = 0;
        while i < self.blocks.len()
            invariant
                i <= self.blocks@.len(),
                forall|j: int|
                    0 <= j < i ==> -2 <= (#[trigger] self.blocks@[j]).0 <= 2 && -2
                        <= self.blocks@[j].1 <= 2,
            decreases self.blocks@.len() - i,
        {
            let (bx, by) = self.blocks[i];
            if bx < -2 || bx > 2 || by < -2 || by > 2 {
                return false;
            }
            i = i + 1;
        }
        true
    }
}

/// Two pieces hold the same data.
pub open spec fn same_piece(a: Piece, b: Piece) -> bool {
    &&& a.blocks@ == b.blocks@
    &&& a.x == b.x
    &&& a.y == b.y
    &&& a.id == b.id
}

/// `q` is `p` shifted by (dx, dy), shape and kind unchanged.
pub open spec fn piece_moved(p: Piece, q: Piece, dx: int, dy: int) -> bool {
    &&& q.blocks@ == p.blocks@
    &&& q.x == p.x + dx
    &&& q.y == p.y + dy
    &&& q.id == p.id
}

/// A freshly spawned piece: a valid kind, the canonical offsets of that
/// kind, horizontally centered, origin one row above the visible field.
pub open spec fn is_spawn(p: Piece) -> bool {
    &&& 1 <= p.id <= 7
    &&& p.blocks@ == canonical_blocks(p.id - 1)
    &&& p.x == SPAWN_X
    &&& p.y == SPAWN_Y
}

/// The canonical offsets of the given kind index, as executable data.
pub fn canonical_offsets(kind_index: usize) -> (r: Vec<(i32, i32)>)
    requires
        kind_index < 7,
    ensures
        r@ == canonical_blocks(kind_index as int),
        blocks_wf(r@),
{
    let mut v: Vec<(i32, i32)> = Vec::new();
    if kind_index == 0 {
        v.push((-2, 0));
        v.push((-1, 0));
        v.push((0, 0));
        v.push((1, 0));
    } else if kind_index == 1 {
        v.push((0, 0));
        v.push((1, 0));
        v.push((0, 1));
        v.push((1, 1));
    } else if kind_index == 2 {
        v.push((-1, 0));
        v.push((0, 0));
        v.push((1, 0));
        v.push((0, 1));
    } else if kind_index == 3 {
        v.push((-1, 0));
        v.push((0, 0));
        v.push((1, 0));
        v.push((1, 1));
    } else if kind_index == 4 {
        v.push((-1, 0));
        v.push((0, 0));
        v.push((1, 0));
        v.push((-1, 1));
    } else if kind_index == 5 {
        v.push((-1, 1));
        v.push((0, 1));
        v.push((0, 0));
        v.push((1, 0));
    } else {
        v.push((-1, 0));
        v.push((0, 0));
        v.push((0, 1));
        v.push((1, 1));
    }
    proof {
        assert(v@ =~= canonical_blocks(kind_index as int));
    }
    v
}

/// One clockwise rotation of an offset set.
pub fn rotate_clockwise(blocks: &Vec<(i32, i32)>) -> (r: Vec<(i32, i32)>)
    requires
        blocks_wf(blocks@),
    ensures
        r@ == rotated_cw(blocks@),
        blocks_wf(r@),
{
    let mut r: Vec<(i32, i32)> = Vec::new();
    let mut i: usize = 0;
    while i < blocks.len()
        invariant
            blocks_wf(blocks@),
            i <= blocks@.len(),
            r@.len() == i,
            forall|j: int| 0 <= j < i ==> #[trigger] r@[j] == rotated_cw(blocks@)[j],
        decreases blocks@.len() - i,
    {
        let (bx, by) = blocks[i];
        r.push((-by, bx));
        i = i + 1;
    }
    proof {
        assert(r@ =~= rotated_cw(blocks@));
    }
    r
}

impl Piece {
    /// The four rotation states of a kind: the canonical offsets, then each
    /// further state obtained by one clockwise transform of the previous.
    pub fn shape_rotations(name: usize) -> (rots: Vec<Vec<(i32, i32)>>)
        requires
            name < 7,
        ensures
            rots@.len() == 4,
            rots@[0]@ == canonical_blocks(name as int),
            forall|i: int| 1 <= i < 4 ==> (#[trigger] rots@[i])@ == rotated_cw(rots@[i - 1]@),
            forall|i: int| 0 <= i < 4 ==> blocks_wf((#[trigger] rots@[i])@),
    {
        let mut rots: Vec<Vec<(i32, i32)>> = Vec::new();
        let mut current = canonical_offsets(name);
        let mut k: usize = 0;
        while k < 4
            invariant
                k <= 4,
                rots@.len() == k,
                blocks_wf(current@),
                k < 4 ==> (k == 0 ==> current@ == canonical_blocks(name as int)),
                k > 0 ==> rots@[0]@ == canonical_blocks(name as int),
                k > 0 ==> current@ == rotated_cw(rots@[k - 1]@),
                forall|i: int| 1 <= i < k ==> (#[trigger] rots@[i])@ == rotated_cw(rots@[i - 1]@),
                forall|i: int| 0 <= i < k ==> blocks_wf((#[trigger] rots@[i])@),
            decreases 4 - k,
        {
            let next = rotate_clockwise(&current);
            rots.push(current);
            current = next;
            k = k + 1;
        }
        rots
    }

    /// Rotate the piece clockwise in place; position and kind are unchanged.
    pub fn rotate_cw(&mut self)
        requires
            blocks_wf(old(self).blocks@),
        ensures
            final(self).blocks@ == rotated_cw(old(self).blocks@),
            blocks_wf(final(self).blocks@),
            final(self).x == old(self).x,
            final(self).y == old(self).y,
            final(self).id == old(self).id,
    {
        let rb = rotate_clockwise(&self.blocks);
        self.blocks = rb;
    }

    /// The absolute board coordinates of the piece's four cells.
    pub fn positions(&self) -> (r: Vec<(i32, i32)>)
        requires
            self.wf(),
        ensures
            r@.len() == self.blocks@.len(),
            forall|i: int|
                0 <= i < r@.len() ==> (#[trigger] r@[i]).0 == self.x + self.blocks@[i].0 && r@[i].1
                    == self.y + self.blocks@[i].1,
    {
        let mut r: Vec<(i32, i32)> = Vec::new();
        let mut i: usize = 0;
        while i < self.blocks.len()
            invariant
                self.wf(),
                i <= self.blocks@.len(),
                r@.len() == i,
                forall|j: int|
                    0 <= j < i ==> (#[trigger] r@[j]).0 == self.x + self.blocks@[j].0 && r@[j].1
                        == self.y + self.blocks@[j].1,
            decreases self.blocks@.len() - i,
        {
            let (bx, by) = self.blocks[i];
            r.push((self.x + bx, self.y + by));
            i = i + 1;
        }
        r
    }

    /// A fresh piece of the given kind index (0..7): canonical offsets,
    /// horizontally centered, origin one row above the visible field.
    pub fn spawn(kind_index: usize) -> (p: Piece)
        requires
            kind_index < 7,
        ensures
            p.wf(),
            is_spawn(p),
            p.id == kind_index + 1,
    {
        let blocks = canonical_offsets(kind_index);
        Piece { blocks, x: SPAWN_X, y: SPAWN_Y, id: (kind_index + 1) as u8 }
    }

    /// A fresh piece of a uniformly random kind.
    pub fn random_spawn() -> (p: Piece)
        ensures
            p.wf(),
            is_spawn(p),
    {
        Piece::spawn(crate::rng::random_kind_index())
    }
}

/// Law: applying the clockwise transform four times to any offset set
/// returns the original set exactly. (The bound on the coordinates is the
/// square every piece's offsets live in.)
pub proof fn lemma_rotate_four_times_identity(blocks: Seq<(i32, i32)>)
    requires
        forall|i: int|
            0 <= i < blocks.len() ==> -2 <= (#[trigger] blocks[i]).0 <= 2 && -2 <= blocks[i].1
                <= 2,
    ensures
        rotated_cw(rotated_cw(rotated_cw(rotated_cw(blocks)))) == blocks,
{
    let r1 = rotated_cw(blocks);
    let r2 = rotated_cw(r1);
    let r3 = rotated_cw(r2);
    let r4 = rotated_cw(r3);
    assert forall|i: int| 0 <= i < blocks.len() implies r4[i] == blocks[i] by {
        assert(r1[i] == ((-(blocks[i].1 as int)) as i32, blocks[i].0));
        assert(r2[i] == ((-(r1[i].1 as int)) as i32, r1[i].0));
        assert(r3[i] == ((-(r2[i].1 as int)) as i32, r2[i].0));
        assert(r4[i] == ((-(r3[i].1 as int)) as i32, r3[i].0));
    }
    assert(r4 =~= blocks);
}

/// The logical display color of a piece kind.
#[derive(Clone, Copy, PartialEq, Eq, Structural, Debug)]
pub enum PieceColor {
    Cyan,
    Yellow,
    Magenta,
    Blue,
    Red,
    Green,
    DarkRed,
    White,
}

/// The color identity of each kind identifier 1..=7; anything else is white.
pub open spec fn color_of(id: u8) -> PieceColor {
    if id == 1 {
        PieceColor::Cyan
    } else if id == 2 {
        PieceColor::Yellow
    } else if id == 3 {
        PieceColor::Magenta
    } else if id == 4 {
        PieceColor::Blue
    } else if id == 5 {
        PieceColor::Red
    } else if id == 6 {
        PieceColor::Green
    } else if id == 7 {
        PieceColor::DarkRed
    } else {
        PieceColor::White
    }
}

/// The display color for a kind identifier.
pub fn piece_color(id: u8) -> (c: PieceColor)
    ensures
        c == color_of(id),
{
    match id {
        1 => PieceColor::Cyan,
        2 => PieceColor::Yellow,
        3 => PieceColor::Magenta,
        4 => PieceColor::Blue,
        5 => PieceColor::Red,
        6 => PieceColor::Green,
        7 => PieceColor::DarkRed,
        _ => PieceColor::White,
    }
}

} // verus!
