//! The engine's laws: properties of the line-clear engine, the move and
//! rotate resolver, and the gravity step, proved once and for all over
//! the model functions that the executable methods are specified against.

use vstd::prelude::*;

use crate::color::Color;
use crate::model::board_dims_ok;
use crate::model::cleared_board;
use crate::model::collide_spec;
use crate::model::count_full;
use crate::model::empty_row;
use crate::model::hits_floor_or_stack;
use crate::model::hits_left_wall;
use crate::model::hits_right_wall;
use crate::model::lemma_full_partition;
use crate::model::placement_ok;
use crate::model::resolve_x;
use crate::model::surviving_rows;
use crate::model::CollideVariant;
use crate::model::KICK_LIMIT;
use crate::shapes::occ;
use crate::shapes::FigureKind;
use crate::shapes::Rotation;
use crate::FIELD_HEIGHT;
use crate::FIELD_WIDTH;

verus! {

/// Clearing any number of simultaneously full rows keeps the total row
/// count, stacks exactly one fresh empty row per cleared row at the top,
/// and keeps the non-cleared rows below them in their original relative
/// order (`surviving_rows` is the order-preserving selection of the rows
/// that are not full).
pub proof fn lemma_clear_preserves_rows(b: Seq<Seq<Color>>)
    requires
        board_dims_ok(b),
    ensures
        cleared_board(b).len() == b.len(),
        cleared_board(b).subrange(count_full(b) as int, b.len() as int) == surviving_rows(b),
        forall|y: int| 0 <= y < count_full(b) ==> cleared_board(b)[y] == empty_row(),
{
    lemma_full_partition(b);
    assert(cleared_board(b).subrange(count_full(b) as int, b.len() as int) =~= surviving_rows(b));
}

/// A one-cell move into the left wall is turned back: when the figure
/// stands legally at `x` and the shifted frame `x - 1` hangs over the
/// left wall, the resolver hands back exactly the old position, so the
/// move leaves the figure where it was.
pub proof fn lemma_left_boundary_move_rejected(
    b: Seq<Seq<Color>>,
    kind: FigureKind,
    rot: Rotation,
    x: int,
    y: int,
)
    requires
        placement_ok(b, kind, rot, x, y),
        hits_left_wall(kind, rot, x - 1),
    ensures
        resolve_x(b, kind, rot, x - 1, y, KICK_LIMIT as nat) == Option::Some(x),
{
    assert(collide_spec(b, kind, rot, x - 1, y) == CollideVariant::LeftWall);
    assert(collide_spec(b, kind, rot, x, y) == CollideVariant::NoCollision);
    assert(resolve_x(b, kind, rot, x - 1, y, KICK_LIMIT as nat) == resolve_x(
        b,
        kind,
        rot,
        x,
        y,
        (KICK_LIMIT - 1) as nat,
    ));
}

/// A gravity step from a legal position whose lowest occupied cell
/// already rests on the board's last row runs into the floor: the
/// collision that triggers an immediate lock.
pub proof fn lemma_floor_tick_locks(
    b: Seq<Seq<Color>>,
    kind: FigureKind,
    rot: Rotation,
    x: int,
    y: int,
    lx: int,
    ly: int,
)
    requires
        placement_ok(b, kind, rot, x, y),
        occ(kind, rot, lx, ly),
        y + ly + 1 >= FIELD_HEIGHT as int,
    ensures
        collide_spec(b, kind, rot, x, y + 1) == CollideVariant::BottomOrPieces,
{
    assert(hits_floor_or_stack(b, kind, rot, x, y + 1));
}

/// The kick search from `x` ran into the floor or the stack at `bx`: the
/// first frame position in the search direction that hangs over neither
/// wall, with every position strictly between `x` and `bx` hanging over
/// the wall the search is escaping.
pub open spec fn kick_blocked_at(
    b: Seq<Seq<Color>>,
    kind: FigureKind,
    rot: Rotation,
    x: int,
    y: int,
    bx: int,
) -> bool {
    &&& !hits_left_wall(kind, rot, bx)
    &&& !hits_right_wall(kind, rot, bx)
    &&& hits_floor_or_stack(b, kind, rot, bx, y)
    &&& (bx >= x ==> forall|mx: int| x <= mx < bx ==> hits_left_wall(kind, rot, mx))
    &&& (bx <= x ==> forall|mx: int| bx < mx <= x ==> hits_right_wall(kind, rot, mx))
}

/// The wall-kick law.  With enough fuel for the band the engine moves
/// in, the resolver either accepts a legal placement reached by the
/// minimum kick — every skipped position hangs over the wall being
/// escaped — or rejects because the minimally kicked frame runs into the
/// floor or the locked stack.  In particular, when no legal placement
/// exists at any kick offset, the resolver rejects.
pub proof fn lemma_kick_resolution(
    b: Seq<Seq<Color>>,
    kind: FigureKind,
    rot: Rotation,
    x: int,
    y: int,
    fuel: nat,
)
    requires
        fuel >= 1,
        fuel as int >= 1 - x,
        fuel as int >= x - (FIELD_WIDTH as int - 5),
    ensures
        match resolve_x(b, kind, rot, x, y, fuel) {
            Option::Some(rx) => {
                &&& placement_ok(b, kind, rot, rx, y)
                &&& (rx >= x ==> forall|mx: int| x <= mx < rx ==> hits_left_wall(kind, rot, mx))
                &&& (rx <= x ==> forall|mx: int| rx < mx <= x ==> hits_right_wall(kind, rot, mx))
            },
            Option::None => exists|bx: int| kick_blocked_at(b, kind, rot, x, y, bx),
        },
    decreases fuel,
{
    match collide_spec(b, kind, rot, x, y) {
        CollideVariant::NoCollision => {
        },
        CollideVariant::BottomOrPieces => {
            assert(kick_blocked_at(b, kind, rot, x, y, x));
        },
        CollideVariant::LeftWall => {
            let (wx, wy) = choose|wx: int, wy: int| occ(kind, rot, wx, wy) && x + wx < 0;
            assert(x < 0);
            lemma_kick_resolution(b, kind, rot, x + 1, y, (fuel - 1) as nat);
            match resolve_x(b, kind, rot, x + 1, y, (fuel - 1) as nat) {
                Option::Some(rx) => {
                    if rx < x + 1 {
                        assert(hits_right_wall(kind, rot, x + 1));
                        let (vx, vy) = choose|vx: int, vy: int|
                            occ(kind, rot, vx, vy) && x + 1 + vx >= FIELD_WIDTH as int;
                        assert(false);
                    }
                    assert forall|mx: int| x <= mx < rx implies hits_left_wall(
                        kind,
                        rot,
                        mx,
                    ) by {
                        if mx > x {
                            assert(x + 1 <= mx < rx);
                        }
                    }
                },
                Option::None => {
                    let bx = choose|bx: int| #[trigger] kick_blocked_at(b, kind, rot, x + 1, y, bx);
                    if bx < x + 1 {
                        assert(hits_right_wall(kind, rot, x + 1));
                        let (vx, vy) = choose|vx: int, vy: int|
                            occ(kind, rot, vx, vy) && x + 1 + vx >= FIELD_WIDTH as int;
                        assert(false);
                    }
                    assert forall|mx: int| x <= mx < bx implies hits_left_wall(
                        kind,
                        rot,
                        mx,
                    ) by {
                        if mx > x {
                            assert(x + 1 <= mx < bx);
                        }
                    }
                    assert(kick_blocked_at(b, kind, rot, x, y, bx));
                },
            }
        },
        CollideVariant::RightWall => {
            let (wx, wy) = choose|wx: int, wy: int|
                occ(kind, rot, wx, wy) && x + wx >= FIELD_WIDTH as int;
            assert(x >= FIELD_WIDTH as int - 3);
            lemma_kick_resolution(b, kind, rot, x - 1, y, (fuel - 1) as nat);
            match resolve_x(b, kind, rot, x - 1, y, (fuel - 1) as nat) {
                Option::Some(rx) => {
                    if rx > x - 1 {
                        assert(hits_left_wall(kind, rot, x - 1));
                        let (vx, vy) = choose|vx: int, vy: int|
                            occ(kind, rot, vx, vy) && x - 1 + vx < 0;
                        assert(false);
                    }
                    assert forall|mx: int| rx < mx <= x implies hits_right_wall(
                        kind,
                        rot,
                        mx,
                    ) by {
                        if mx < x {
                            assert(rx < mx <= x - 1);
                        }
                    }
                },
                Option::None => {
                    let bx = choose|bx: int| #[trigger] kick_blocked_at(b, kind, rot, x - 1, y, bx);
                    if bx > x - 1 {
                        assert(hits_left_wall(kind, rot, x - 1));
                        let (vx, vy) = choose|vx: int, vy: int|
                            occ(kind, rot, vx, vy) && x - 1 + vx < 0;
                        assert(false);
                    }
                    assert forall|mx: int| bx < mx <= x implies hits_right_wall(
                        kind,
                        rot,
                        mx,
                    ) by {
                        if mx < x {
                            assert(bx < mx <= x - 1);
                        }
                    }
                    assert(kick_blocked_at(b, kind, rot, x, y, bx));
                },
            }
        },
    }
}

} // verus!
