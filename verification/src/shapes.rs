//! The shape catalog: piece kinds, rotation states, and the fixed 4 x 4
//! occupancy bitmap of every (kind, rotation) pair, together with each
//! kind's spawn offset.

use vstd::prelude::*;

verus! {

/// A position of the falling figure's 4 x 4 frame on the board, in cells.
/// Coordinates may be negative: a freshly spawned piece starts partly above
/// the visible grid, and the frame's left column may hang over the wall as
/// long as no occupied cell does.
#[derive(Copy, Clone, Debug, PartialEq, Eq, Structural)]
pub struct Pos {
    pub x: i32,
    pub y: i32,
}

/// One of the four orientations a piece can be in.  A single rotate
/// command advances `Spawn -> Right -> Flipped -> Left -> Spawn`.
#[derive(Copy, Clone, Debug, PartialEq, Eq, Structural)]
pub enum Rotation {
    Spawn,
    Left,
    Right,
    Flipped,
}

impl Rotation {
    /// The orientation reached by one rotate command.
    pub open spec fn rotated(self) -> Rotation {
        match self {
            Rotation::Spawn => Rotation::Right,
            Rotation::Left => Rotation::Spawn,
            Rotation::Right => Rotation::Flipped,
            Rotation::Flipped => Rotation::Left,
        }
    }

    /// Returns the orientation reached by one rotate command.
    pub fn rotate(&self) -> (r: Self)
        ensures
            r == self.rotated(),
    {
        match self {
            Rotation::Spawn => Rotation::Right,
            Rotation::Left => Rotation::Spawn,
            Rotation::Right => Rotation::Flipped,
            Rotation::Flipped => Rotation::Left,
        }
    }
}

/// The seven tetromino kinds.
#[derive(Copy, Clone, Debug, PartialEq, Eq, Structural)]
pub enum FigureKind {
    Bar,
    PZ,
    NZ,
    PL,
    NL,
    Square,
    T,
}

/// Whether local cell `(lx, ly)` of the 4 x 4 frame is occupied when a
/// piece of kind `kind` stands in orientation `rot`.  Cells outside the
/// frame are never occupied.
pub open spec fn occ(kind: FigureKind, rot: Rotation, lx: int, ly: int) -> bool {
    &&& 0 <= lx < 4
    &&& 0 <= ly < 4
    &&& match kind {
        FigureKind::Bar => match rot {
            Rotation::Spawn => lx == 1,
            Rotation::Left => ly == 2,
            Rotation::Right => ly == 1,
            Rotation::Flipped => lx == 2,
        },
        FigureKind::PZ => match rot {
            Rotation::Spawn => (ly == 0 && (lx == 0 || lx == 1)) || (ly == 1 && (lx == 1 || lx
                == 2)),
            Rotation::Left => (ly == 0 && lx == 1) || (ly == 1 && (lx == 0 || lx == 1)) || (ly == 2
                && lx == 0),
            Rotation::Right => (ly == 0 && lx == 2) || (ly == 1 && (lx == 1 || lx == 2)) || (ly == 2
                && lx == 1),
            Rotation::Flipped => (ly == 1 && (lx == 0 || lx == 1)) || (ly == 2 && (lx == 1 || lx
                == 2)),
        },
        FigureKind::NZ => match rot {
            Rotation::Spawn => (ly == 0 && (lx == 1 || lx == 2)) || (ly == 1 && (lx == 0 || lx
                == 1)),
            Rotation::Left => (ly == 0 && lx == 0) || (ly == 1 && (lx == 0 || lx == 1)) || (ly == 2
                && lx == 1),
            Rotation::Right => (ly == 0 && lx == 1) || (ly == 1 && (lx == 1 || lx == 2)) || (ly == 2
                && lx == 2),
            Rotation::Flipped => (ly == 1 && (lx == 1 || lx == 2)) || (ly == 2 && (lx == 0 || lx
                == 1)),
        },
        FigureKind::PL => match rot {
            Rotation::Spawn => (ly == 0 && lx == 1) || (ly == 1 && lx == 1) || (ly == 2 && (lx == 1
                || lx == 2)),
            Rotation::Left => (ly == 0 && lx == 2) || (ly == 1 && (lx == 0 || lx == 1 || lx == 2)),
            Rotation::Right => (ly == 1 && (lx == 0 || lx == 1 || lx == 2)) || (ly == 2 && lx == 0),
            Rotation::Flipped => (ly == 0 && (lx == 0 || lx == 1)) || (ly == 1 && lx == 1) || (ly
                == 2 && lx == 1),
        },
        FigureKind::NL => match rot {
            Rotation::Spawn => (ly == 0 && lx == 1) || (ly == 1 && lx == 1) || (ly == 2 && (lx == 0
                || lx == 1)),
            Rotation::Left => (ly == 1 && (lx == 0 || lx == 1 || lx == 2)) || (ly == 2 && lx == 2),
            Rotation::Right => (ly == 0 && lx == 0) || (ly == 1 && (lx == 0 || lx == 1 || lx == 2)),
            Rotation::Flipped => (ly == 0 && (lx == 1 || lx == 2)) || (ly == 1 && lx == 1) || (ly
                == 2 && lx == 1),
        },
        FigureKind::Square => (lx == 0 || lx == 1) && (ly == 0 || ly == 1),
        FigureKind::T => match rot {
            Rotation::Spawn => (ly == 1 && (lx == 0 || lx == 1 || lx == 2)) || (ly == 2 && lx == 1),
            Rotation::Left => (ly == 0 && lx == 1) || (ly == 1 && (lx == 1 || lx == 2)) || (ly == 2
                && lx == 1),
            Rotation::Right => (ly == 0 && lx == 1) || (ly == 1 && (lx == 0 || lx == 1)) || (ly == 2
                && lx == 1),
            Rotation::Flipped => (ly == 0 && lx == 1) || (ly == 1 && (lx == 0 || lx == 1 || lx
                == 2)),
        },
    }
}

/// The fixed position at which a fresh piece of the given kind appears.
/// The x offset centers the 4 x 4 frame; a negative y lets tall kinds
/// fall into the visible grid instead of popping in fully formed.
pub open spec fn spawn_pos(kind: FigureKind) -> Pos {
    match kind {
        FigureKind::Bar => Pos { x: 4i32, y: -2i32 },
        FigureKind::PZ => Pos { x: 4i32, y: 0i32 },
        FigureKind::NZ => Pos { x: 4i32, y: 0i32 },
        FigureKind::PL => Pos { x: 4i32, y: -1i32 },
        FigureKind::NL => Pos { x: 4i32, y: -1i32 },
        FigureKind::Square => Pos { x: 4i32, y: 0i32 },
        FigureKind::T => Pos { x: 4i32, y: -1i32 },
    }
}

/// Returns whether local frame cell `(lx, ly)` is occupied.
pub fn occupied_cell(kind: FigureKind, rot: Rotation, lx: usize, ly: usize) -> (r: bool)
    requires
        lx < 4,
        ly < 4,
    ensures
        r == occ(kind, rot, lx as int, ly as int),
{
    match kind {
        FigureKind::Bar => match rot {
            Rotation::Spawn => lx == 1,
            Rotation::Left => ly == 2,
            Rotation::Right => ly == 1,
            Rotation::Flipped => lx == 2,
        },
        FigureKind::PZ => match rot {
            Rotation::Spawn => (ly == 0 && (lx == 0 || lx == 1)) || (ly == 1 && (lx == 1 || lx
                == 2)),
            Rotation::Left => (ly == 0 && lx == 1) || (ly == 1 && (lx == 0 || lx == 1)) || (ly == 2
                && lx == 0),
            Rotation::Right => (ly == 0 && lx == 2) || (ly == 1 && (lx == 1 || lx == 2)) || (ly == 2
                && lx == 1),
            Rotation::Flipped => (ly == 1 && (lx == 0 || lx == 1)) || (ly == 2 && (lx == 1 || lx
                == 2)),
        },
        FigureKind::NZ => match rot {
            Rotation::Spawn => (ly == 0 && (lx == 1 || lx == 2)) || (ly == 1 && (lx == 0 || lx
                == 1)),
            Rotation::Left => (ly == 0 && lx == 0) || (ly == 1 && (lx == 0 || lx == 1)) || (ly == 2
                && lx == 1),
            Rotation::Right => (ly == 0 && lx == 1) || (ly == 1 && (lx == 1 || lx == 2)) || (ly == 2
                && lx == 2),
            Rotation::Flipped => (ly == 1 && (lx == 1 || lx == 2)) || (ly == 2 && (lx == 0 || lx
                == 1)),
        },
        FigureKind::PL => match rot {
            Rotation::Spawn => (ly == 0 && lx == 1) || (ly == 1 && lx == 1) || (ly == 2 && (lx == 1
                || lx == 2)),
            Rotation::Left => (ly == 0 && lx == 2) || (ly == 1 && (lx == 0 || lx == 1 || lx == 2)),
            Rotation::Right => (ly == 1 && (lx == 0 || lx == 1 || lx == 2)) || (ly == 2 && lx == 0),
            Rotation::Flipped => (ly == 0 && (lx == 0 || lx == 1)) || (ly == 1 && lx == 1) || (ly
                == 2 && lx == 1),
        },
        FigureKind::NL => match rot {
            Rotation::Spawn => (ly == 0 && lx == 1) || (ly == 1 && lx == 1) || (ly == 2 && (lx == 0
                || lx == 1)),
            Rotation::Left => (ly == 1 && (lx == 0 || lx == 1 || lx == 2)) || (ly == 2 && lx == 2),
            Rotation::Right => (ly == 0 && lx == 0) || (ly == 1 && (lx == 0 || lx == 1 || lx == 2)),
            Rotation::Flipped => (ly == 0 && (lx == 1 || lx == 2)) || (ly == 1 && lx == 1) || (ly
                == 2 && lx == 1),
        },
        FigureKind::Square => (lx == 0 || lx == 1) && (ly == 0 || ly == 1),
        FigureKind::T => match rot {
            Rotation::Spawn => (ly == 1 && (lx == 0 || lx == 1 || lx == 2)) || (ly == 2 && lx == 1),
            Rotation::Left => (ly == 0 && lx == 1) || (ly == 1 && (lx == 1 || lx == 2)) || (ly == 2
                && lx == 1),
            Rotation::Right => (ly == 0 && lx == 1) || (ly == 1 && (lx == 0 || lx == 1)) || (ly == 2
                && lx == 1),
            Rotation::Flipped => (ly == 0 && lx == 1) || (ly == 1 && (lx == 0 || lx == 1 || lx
                == 2)),
        },
    }
}

/// Returns whether frame cell `(lx, ly)` is occupied, for coordinates that
/// may lie outside the 4 x 4 frame (where nothing is occupied).
pub fn occupied_in_frame(kind: FigureKind, rot: Rotation, lx: i32, ly: i32) -> (r: bool)
    ensures
        r == occ(kind, rot, lx as int, ly as int),
{
    if lx < 0 || lx >= 4 || ly < 0 || ly >= 4 {
        false
    } else {
        occupied_cell(kind, rot, lx as usize, ly as usize)
    }
}

impl FigureKind {
    /// Returns the 4 x 4 occupancy bitmap of this kind at the given
    /// orientation, one row per inner vector, `1` for an occupied cell.
    pub fn get_rect(self, rotation: Rotation) -> (r: Vec<Vec<u8>>)
        ensures
            r@.len() == 4,
            forall|ly: int| 0 <= ly < 4 ==> (#[trigger] r@[ly])@.len() == 4,
            forall|lx: int, ly: int|
                0 <= lx < 4 && 0 <= ly < 4 ==> (#[trigger] r@[ly]@[lx]) == if occ(
                    self,
                    rotation,
                    lx,
                    ly,
                ) {
                    1u8
                } else {
                    0u8
                },
    {
        let mut rect: Vec<Vec<u8>> = Vec::new();
        let mut ly: usize = 0;
        while ly < 4
            invariant
                ly <= 4,
                rect@.len() == ly,
                forall|ay: int| 0 <= ay < ly ==> (#[trigger] rect@[ay])@.len() == 4,
                forall|ax: int, ay: int|
                    0 <= ax < 4 && 0 <= ay < ly ==> (#[trigger] rect@[ay]@[ax]) == if occ(
                        self,
                        rotation,
                        ax,
                        ay,
                    ) {
                        1u8
                    } else {
                        0u8
                    },
            decreases 4 - ly,
        {
            let mut row: Vec<u8> = Vec::new();
            let mut lx: usize = 0;
            while lx < 4
                invariant
                    lx <= 4,
                    ly < 4,
                    row@.len() == lx,
                    forall|ax: int|
                        0 <= ax < lx ==> (#[trigger] row@[ax]) == if occ(
                            self,
                            rotation,
                            ax,
                            ly as int,
                        ) {
                            1u8
                        } else {
                            0u8
                        },
                decreases 4 - lx,
            {
                if occupied_cell(self, rotation, lx, ly) {
                    row.push(1);
                } else {
                    row.push(0);
                }
                lx += 1;
            }
            rect.push(row);
            ly += 1;
        }
        rect
    }

    /// Returns the spawn offset of this kind.
    pub fn get_pos(self) -> (r: Pos)
        ensures
            r == spawn_pos(self),
    {
        match self {
            FigureKind::Bar => Pos { x: 4, y: -2 },
            FigureKind::PZ => Pos { x: 4, y: 0 },
            FigureKind::NZ => Pos { x: 4, y: 0 },
            FigureKind::PL => Pos { x: 4, y: -1 },
            FigureKind::NL => Pos { x: 4, y: -1 },
            FigureKind::Square => Pos { x: 4, y: 0 },
            FigureKind::T => Pos { x: 4, y: -1 },
        }
    }
}

/// The piece kind drawn for a generator index in `0..7`, in the order the
/// piece generator maps them.
pub open spec fn kind_of_index(i: int) -> FigureKind {
    if i == 0 {
        FigureKind::Bar
    } else if i == 1 {
        FigureKind::PZ
    } else if i == 2 {
        FigureKind::NZ
    } else if i == 3 {
        FigureKind::PL
    } else if i == 4 {
        FigureKind::NL
    } else if i == 5 {
        FigureKind::Square
    } else {
        FigureKind::T
    }
}

/// Returns the piece kind for a generator index.
pub fn kind_from_index(i: u32) -> (k: FigureKind)
    requires
        i < 7,
    ensures
        k == kind_of_index(i as int),
{
    if i == 0 {
        FigureKind::Bar
    } else if i == 1 {
        FigureKind::PZ
    } else if i == 2 {
        FigureKind::NZ
    } else if i == 3 {
        FigureKind::PL
    } else if i == 4 {
        FigureKind::NL
    } else if i == 5 {
        FigureKind::Square
    } else {
        FigureKind::T
    }
}

/// The falling piece: its kind and the hue its cells lock with.
#[derive(Copy, Clone, Debug, PartialEq, Eq, Structural)]
pub struct Figure {
    pub kind: FigureKind,
    pub color: crate::color::Color,
}

impl Figure {
    /// Returns the 4 x 4 occupancy bitmap of this figure's kind at the
    /// given orientation.
    pub fn get_rect(&self, rotation: Rotation) -> (r: Vec<Vec<u8>>)
        ensures
            r@.len() == 4,
            forall|ly: int| 0 <= ly < 4 ==> (#[trigger] r@[ly])@.len() == 4,
            forall|lx: int, ly: int|
                0 <= lx < 4 && 0 <= ly < 4 ==> (#[trigger] r@[ly]@[lx]) == if occ(
                    self.kind,
                    rotation,
                    lx,
                    ly,
                ) {
                    1u8
                } else {
                    0u8
                },
    {
        self.kind.get_rect(rotation)
    }
}

/// Every (kind, rotation) bitmap holds at least one occupied cell.
pub proof fn lemma_shape_nonempty(kind: FigureKind, rot: Rotation)
    ensures
        exists|lx: int, ly: int| occ(kind, rot, lx, ly),
{
    match kind {
        FigureKind::Bar => match rot {
            Rotation::Spawn => assert(occ(kind, rot, 1, 0)),
            Rotation::Left => assert(occ(kind, rot, 0, 2)),
            Rotation::Right => assert(occ(kind, rot, 0, 1)),
            Rotation::Flipped => assert(occ(kind, rot, 2, 0)),
        },
        FigureKind::PZ => match rot {
            Rotation::Spawn => assert(occ(kind, rot, 0, 0)),
            Rotation::Left => assert(occ(kind, rot, 1, 0)),
            Rotation::Right => assert(occ(kind, rot, 2, 0)),
            Rotation::Flipped => assert(occ(kind, rot, 0, 1)),
        },
        FigureKind::NZ => match rot {
            Rotation::Spawn => assert(occ(kind, rot, 1, 0)),
            Rotation::Left => assert(occ(kind, rot, 0, 0)),
            Rotation::Right => assert(occ(kind, rot, 1, 0)),
            Rotation::Flipped => assert(occ(kind, rot, 1, 1)),
        },
        FigureKind::PL => match rot {
            Rotation::Spawn => assert(occ(kind, rot, 1, 0)),
            Rotation::Left => assert(occ(kind, rot, 2, 0)),
            Rotation::Right => assert(occ(kind, rot, 0, 1)),
            Rotation::Flipped => assert(occ(kind, rot, 0, 0)),
        },
        FigureKind::NL => match rot {
            Rotation::Spawn => assert(occ(kind, rot, 1, 0)),
            Rotation::Left => assert(occ(kind, rot, 0, 1)),
            Rotation::Right => assert(occ(kind, rot, 0, 0)),
            Rotation::Flipped => assert(occ(kind, rot, 1, 0)),
        },
        FigureKind::Square => assert(occ(kind, rot, 0, 0)),
        FigureKind::T => match rot {
            Rotation::Spawn => assert(occ(kind, rot, 0, 1)),
            Rotation::Left => assert(occ(kind, rot, 1, 0)),
            Rotation::Right => assert(occ(kind, rot, 1, 0)),
            Rotation::Flipped => assert(occ(kind, rot, 1, 0)),
        },
    }
}

} // verus!
