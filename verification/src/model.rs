//! The mathematical model of the engine: what a board is, when a frame
//! position collides, what locking a piece and clearing full rows do.
//! The executable methods of [`crate::Field`] are specified against these
//! functions.

use vstd::prelude::*;

use crate::color::Color;
use crate::shapes::occ;
use crate::shapes::FigureKind;
use crate::shapes::Rotation;
use crate::FIELD_HEIGHT;
use crate::FIELD_WIDTH;

verus! {

/// A board is a sequence of `FIELD_HEIGHT` rows, each a sequence of
/// `FIELD_WIDTH` cells, top row first.
pub open spec fn board_dims_ok(b: Seq<Seq<Color>>) -> bool {
    &&& b.len() == FIELD_HEIGHT
    &&& forall|y: int| 0 <= y < b.len() ==> (#[trigger] b[y]).len() == FIELD_WIDTH
}

/// A row is full when every cell of it is occupied.
pub open spec fn row_is_full(row: Seq<Color>) -> bool {
    forall|x: int| 0 <= x < row.len() ==> (#[trigger] row[x]) != Color::Transparent
}

/// A row of empty cells, as inserted at the top after a line clear.
pub open spec fn empty_row() -> Seq<Color> {
    Seq::new(FIELD_WIDTH as nat, |x: int| Color::Transparent)
}

/// `n` empty rows.
pub open spec fn empty_rows(n: nat) -> Seq<Seq<Color>> {
    Seq::new(n, |y: int| empty_row())
}

/// An entirely empty board, as a fresh game starts with.
pub open spec fn empty_board() -> Seq<Seq<Color>> {
    empty_rows(FIELD_HEIGHT as nat)
}

/// The predicate picking the full rows, as one named function value, so
/// that every use of `filter` sees the same predicate.
pub open spec fn full_pred() -> spec_fn(Seq<Color>) -> bool {
    |row: Seq<Color>| row_is_full(row)
}

/// The predicate picking the rows that are not full.
pub open spec fn not_full_pred() -> spec_fn(Seq<Color>) -> bool {
    |row: Seq<Color>| !row_is_full(row)
}

/// The number of full rows of the board.
pub open spec fn count_full(b: Seq<Seq<Color>>) -> nat {
    b.filter(full_pred()).len()
}

/// The rows that survive a line clear, in their original order.
pub open spec fn surviving_rows(b: Seq<Seq<Color>>) -> Seq<Seq<Color>> {
    b.filter(not_full_pred())
}

/// The board after the line-clear engine has run: every full row is gone,
/// one empty row per cleared row stands at the top, and the rows that were
/// not full keep their relative order below them.
pub open spec fn cleared_board(b: Seq<Seq<Color>>) -> Seq<Seq<Color>> {
    empty_rows(count_full(b)) + surviving_rows(b)
}

/// The board after the piece's occupied cells, at frame position
/// `(x, y)`, are written with color `c`.  Cells that fall outside the
/// board are silently ignored.
pub open spec fn place_spec(
    b: Seq<Seq<Color>>,
    kind: FigureKind,
    rot: Rotation,
    x: int,
    y: int,
    c: Color,
) -> Seq<Seq<Color>> {
    Seq::new(
        b.len(),
        |by: int|
            Seq::new(
                b[by].len(),
                |bx: int|
                    if occ(kind, rot, bx - x, by - y) {
                        c
                    } else {
                        b[by][bx]
                    },
            ),
    )
}

/// The board after the first `n` cells of the piece's frame, in row-major
/// scan order, have been written: the intermediate states of a piece
/// lock.  Frame cell `(lx, ly)` has scan index `ly * 4 + lx`.
pub open spec fn place_prefix(
    b: Seq<Seq<Color>>,
    kind: FigureKind,
    rot: Rotation,
    x: int,
    y: int,
    c: Color,
    n: int,
) -> Seq<Seq<Color>> {
    Seq::new(
        b.len(),
        |by: int|
            Seq::new(
                b[by].len(),
                |bx: int|
                    if occ(kind, rot, bx - x, by - y) && (by - y) * 4 + (bx - x) < n {
                        c
                    } else {
                        b[by][bx]
                    },
            ),
    )
}

/// The board after one bounded cell write: cell `(x, y)` becomes `c` if
/// it lies within the board, and nothing changes otherwise.
pub open spec fn set_cell_spec(b: Seq<Seq<Color>>, x: int, y: int, c: Color) -> Seq<Seq<Color>> {
    if 0 <= x < FIELD_WIDTH as int && 0 <= y < FIELD_HEIGHT as int {
        b.update(y, b[y].update(x, c))
    } else {
        b
    }
}

/// Some occupied cell of the frame at position `x` hangs over the left
/// wall.
pub open spec fn hits_left_wall(kind: FigureKind, rot: Rotation, x: int) -> bool {
    exists|lx: int, ly: int| occ(kind, rot, lx, ly) && x + lx < 0
}

/// Some occupied cell of the frame at position `x` hangs over the right
/// wall.
pub open spec fn hits_right_wall(kind: FigureKind, rot: Rotation, x: int) -> bool {
    exists|lx: int, ly: int| occ(kind, rot, lx, ly) && x + lx >= FIELD_WIDTH as int
}

/// Some occupied cell of the frame at position `(x, y)` lies below the
/// board's last row, or overlaps a locked cell of the board.  Cells above
/// the visible grid (negative board row) overlap nothing.
pub open spec fn hits_floor_or_stack(
    b: Seq<Seq<Color>>,
    kind: FigureKind,
    rot: Rotation,
    x: int,
    y: int,
) -> bool {
    exists|lx: int, ly: int|
        occ(kind, rot, lx, ly) && (y + ly >= FIELD_HEIGHT as int || (0 <= y + ly
            < FIELD_HEIGHT as int && 0 <= x + lx < FIELD_WIDTH as int && b[y + ly][x + lx]
            != Color::Transparent))
}

/// The frame position `(x, y)` is a legal placement: every occupied cell
/// is horizontally within the board, above the floor, and on no locked
/// cell.
pub open spec fn placement_ok(
    b: Seq<Seq<Color>>,
    kind: FigureKind,
    rot: Rotation,
    x: int,
    y: int,
) -> bool {
    &&& !hits_left_wall(kind, rot, x)
    &&& !hits_right_wall(kind, rot, x)
    &&& !hits_floor_or_stack(b, kind, rot, x, y)
}

/// How the frame position `(x, y)` collides, with the left wall checked
/// before the right wall, and the floor or the locked stack only checked
/// once neither wall is hit.
pub open spec fn collide_spec(
    b: Seq<Seq<Color>>,
    kind: FigureKind,
    rot: Rotation,
    x: int,
    y: int,
) -> CollideVariant {
    if hits_left_wall(kind, rot, x) {
        CollideVariant::LeftWall
    } else if hits_right_wall(kind, rot, x) {
        CollideVariant::RightWall
    } else if hits_floor_or_stack(b, kind, rot, x, y) {
        CollideVariant::BottomOrPieces
    } else {
        CollideVariant::NoCollision
    }
}

/// The way a candidate frame position collides, as reported by
/// [`crate::Field::does_collide`].
#[derive(Copy, Clone, Debug, PartialEq, Eq, Structural)]
pub enum CollideVariant {
    NoCollision,
    LeftWall,
    RightWall,
    BottomOrPieces,
}

/// The horizontal position the move/rotate resolver settles on, starting
/// from `x`: a wall hit shifts the frame one cell away from that wall and
/// retries, a floor or stack hit rejects, and a collision-free position is
/// accepted.  `fuel` bounds the number of retries.
pub open spec fn resolve_x(
    b: Seq<Seq<Color>>,
    kind: FigureKind,
    rot: Rotation,
    x: int,
    y: int,
    fuel: nat,
) -> Option<int>
    decreases fuel,
{
    if fuel == 0 {
        Option::<int>::None
    } else {
        match collide_spec(b, kind, rot, x, y) {
            CollideVariant::NoCollision => Option::Some(x),
            CollideVariant::LeftWall => resolve_x(b, kind, rot, x + 1, y, (fuel - 1) as nat),
            CollideVariant::RightWall => resolve_x(b, kind, rot, x - 1, y, (fuel - 1) as nat),
            CollideVariant::BottomOrPieces => Option::<int>::None,
        }
    }
}

/// The number of kick retries the resolver is allowed.  Any occupied cell
/// sits within 4 columns of the frame's left edge, so far fewer retries
/// than this ever happen.
pub const KICK_LIMIT: u32 = 10;

/// The row at which a piece dropped from `(x, y)` comes to rest: the last
/// row reachable by single downward steps that all stay collision-free.
/// `fuel` bounds the fall; a piece starting within the board rests after
/// at most `FIELD_HEIGHT + 2` steps.
pub open spec fn rest_y(
    b: Seq<Seq<Color>>,
    kind: FigureKind,
    rot: Rotation,
    x: int,
    y: int,
    fuel: nat,
) -> int
    decreases fuel,
{
    if fuel == 0 {
        y
    } else if collide_spec(b, kind, rot, x, y + 1) != CollideVariant::NoCollision {
        y
    } else {
        rest_y(b, kind, rot, x, y + 1, (fuel - 1) as nat)
    }
}

/// The fuel handed to [`rest_y`] by the hard drop; enough that it is
/// never exhausted from a position within the board.
pub const DROP_LIMIT: u32 = 32;

/// What the snapshot grid shows at column `sx` and row `sy`: a margin of
/// 4 always-empty columns on either side of the board, the falling
/// piece's color on its occupied cells, and the locked board cells
/// elsewhere.
pub open spec fn snapshot_cell(
    b: Seq<Seq<Color>>,
    kind: FigureKind,
    rot: Rotation,
    x: int,
    y: int,
    c: Color,
    sx: int,
    sy: int,
) -> Color {
    if sx < 4 || sx >= FIELD_WIDTH as int + 4 {
        Color::Transparent
    } else if occ(kind, rot, sx - 4 - x, sy - y) {
        c
    } else {
        b[sy][sx - 4]
    }
}

/// A lock that has written no cell yet leaves the board unchanged.
pub(crate) proof fn lemma_place_prefix_zero(
    b: Seq<Seq<Color>>,
    kind: FigureKind,
    rot: Rotation,
    x: int,
    y: int,
    c: Color,
)
    ensures
        place_prefix(b, kind, rot, x, y, c, 0) == b,
{
    assert(place_prefix(b, kind, rot, x, y, c, 0) =~~= b);
}

/// A lock that has written all 16 frame cells is the full placement.
pub(crate) proof fn lemma_place_prefix_full(
    b: Seq<Seq<Color>>,
    kind: FigureKind,
    rot: Rotation,
    x: int,
    y: int,
    c: Color,
)
    ensures
        place_prefix(b, kind, rot, x, y, c, 16) == place_spec(b, kind, rot, x, y, c),
{
    assert(place_prefix(b, kind, rot, x, y, c, 16) =~~= place_spec(b, kind, rot, x, y, c));
}

/// Writing the next frame cell of the scan advances the lock by one: a
/// bounded write of the piece's color if the cell is occupied, and no
/// change otherwise.
pub(crate) proof fn lemma_place_prefix_step(
    b: Seq<Seq<Color>>,
    kind: FigureKind,
    rot: Rotation,
    x: int,
    y: int,
    c: Color,
    lx: int,
    ly: int,
)
    requires
        board_dims_ok(b),
        0 <= lx < 4,
        0 <= ly < 4,
    ensures
        place_prefix(b, kind, rot, x, y, c, ly * 4 + lx + 1) == if occ(kind, rot, lx, ly) {
            set_cell_spec(place_prefix(b, kind, rot, x, y, c, ly * 4 + lx), x + lx, y + ly, c)
        } else {
            place_prefix(b, kind, rot, x, y, c, ly * 4 + lx)
        },
{
    let n = ly * 4 + lx;
    let before = place_prefix(b, kind, rot, x, y, c, n);
    let after = place_prefix(b, kind, rot, x, y, c, n + 1);
    assert forall|by: int, bx: int|
        #![trigger occ(kind, rot, bx - x, by - y)]
        0 <= by < b.len() && 0 <= bx < b[by].len() implies (occ(kind, rot, bx - x, by - y) && (by
        - y) * 4 + (bx - x) < n + 1) == (occ(kind, rot, bx - x, by - y) && ((by - y) * 4 + (bx - x)
        < n || (bx - x == lx && by - y == ly))) by {
        if occ(kind, rot, bx - x, by - y) && (by - y) * 4 + (bx - x) == n {
            assert((by - y - ly) * 4 == lx - (bx - x));
            assert(bx - x == lx && by - y == ly);
        }
    }
    if occ(kind, rot, lx, ly) {
        let target = set_cell_spec(before, x + lx, y + ly, c);
        assert forall|by: int| 0 <= by < b.len() implies after[by] =~= target[by] by {
            assert(before[by].len() == b[by].len());
        }
        assert(after =~~= target);
    } else {
        assert(after =~~= before);
    }
}

/// Filtering a one-row sequence keeps the row exactly when the predicate
/// holds of it.
proof fn lemma_filter_singleton(row: Seq<Color>, pred: spec_fn(Seq<Color>) -> bool)
    ensures
        seq![row].filter(pred) == if pred(row) {
            seq![row]
        } else {
            Seq::<Seq<Color>>::empty()
        },
{
    reveal_with_fuel(Seq::<_>::filter, 2);
    assert(seq![row].drop_last() =~= Seq::<Seq<Color>>::empty());
    assert(seq![row].last() == row);
    if pred(row) {
        assert(seq![row].filter(pred) =~= seq![row]);
    } else {
        assert(seq![row].filter(pred) =~= Seq::<Seq<Color>>::empty());
    }
}

/// Every row is either full or not: the two filters partition the board.
pub(crate) proof fn lemma_full_partition(b: Seq<Seq<Color>>)
    ensures
        count_full(b) + surviving_rows(b).len() == b.len(),
    decreases b.len(),
{
    reveal_with_fuel(Seq::<_>::filter, 2);
    if b.len() > 0 {
        lemma_full_partition(b.drop_last());
    }
}

/// A filter keeps only rows of the original sequence, so row widths carry
/// over.
proof fn lemma_filter_row_dims(b: Seq<Seq<Color>>, pred: spec_fn(Seq<Color>) -> bool)
    requires
        forall|y: int| 0 <= y < b.len() ==> (#[trigger] b[y]).len() == FIELD_WIDTH,
    ensures
        forall|y: int|
            0 <= y < b.filter(pred).len() ==> (#[trigger] b.filter(pred)[y]).len() == FIELD_WIDTH,
    decreases b.len(),
{
    reveal_with_fuel(Seq::<_>::filter, 2);
    if b.len() > 0 {
        let head = b.drop_last();
        assert(forall|y: int| 0 <= y < head.len() ==> (#[trigger] head[y]).len() == FIELD_WIDTH);
        lemma_filter_row_dims(head, pred);
        if pred(b.last()) {
            assert(b.filter(pred) == head.filter(pred).push(b.last()));
            assert(b.last().len() == FIELD_WIDTH);
            assert forall|y: int| 0 <= y < b.filter(pred).len() implies (#[trigger] b.filter(
                pred,
            )[y]).len() == FIELD_WIDTH by {
                if y < head.filter(pred).len() {
                    assert(b.filter(pred)[y] == head.filter(pred)[y]);
                } else {
                    assert(b.filter(pred)[y] == b.last());
                }
            }
        }
    }
}

/// If no row is full, the filter keeps everything.
proof fn lemma_filter_keeps_all(b: Seq<Seq<Color>>)
    requires
        forall|y: int| 0 <= y < b.len() ==> !row_is_full(#[trigger] b[y]),
    ensures
        surviving_rows(b) == b,
    decreases b.len(),
{
    reveal_with_fuel(Seq::<_>::filter, 2);
    if b.len() == 0 {
        assert(surviving_rows(b) =~= b);
    } else {
        let head = b.drop_last();
        assert(forall|y: int| 0 <= y < head.len() ==> !row_is_full(#[trigger] head[y]));
        lemma_filter_keeps_all(head);
        assert(!row_is_full(b.last()));
        assert(surviving_rows(b) == head.push(b.last()));
        assert(head.push(b.last()) =~= b);
    }
}

/// An empty row is not full.
proof fn lemma_empty_row_not_full()
    ensures
        !row_is_full(empty_row()),
{
    assert(empty_row()[0] == Color::Transparent);
}

/// Line-clearing a board with no full row changes nothing.
pub(crate) proof fn lemma_cleared_no_full(b: Seq<Seq<Color>>)
    requires
        forall|y: int| 0 <= y < b.len() ==> !row_is_full(#[trigger] b[y]),
    ensures
        cleared_board(b) == b,
{
    lemma_filter_keeps_all(b);
    lemma_full_partition(b);
    assert(count_full(b) == 0);
    assert(cleared_board(b) =~= b);
}

/// The line-clear result has the fixed board dimensions.
pub(crate) proof fn lemma_cleared_dims(b: Seq<Seq<Color>>)
    requires
        board_dims_ok(b),
    ensures
        board_dims_ok(cleared_board(b)),
{
    lemma_full_partition(b);
    lemma_filter_row_dims(b, not_full_pred());
    assert forall|y: int| 0 <= y < cleared_board(b).len() implies (#[trigger] cleared_board(
        b,
    )[y]).len() == FIELD_WIDTH by {
        if y < count_full(b) {
            assert(cleared_board(b)[y] == empty_row());
        } else {
            assert(cleared_board(b)[y] == surviving_rows(b)[y - count_full(b)]);
        }
    }
}

/// Removing one full row `y` and inserting an empty row at the top
/// commutes with the line-clear result: the new board clears to the same
/// board, with one full row fewer.
pub(crate) proof fn lemma_clear_step(b: Seq<Seq<Color>>, y: int)
    requires
        board_dims_ok(b),
        0 <= y < b.len(),
        row_is_full(b[y]),
    ensures
        count_full(b) >= 1,
        board_dims_ok(seq![empty_row()] + b.remove(y)),
        count_full(seq![empty_row()] + b.remove(y)) == count_full(b) - 1,
        cleared_board(seq![empty_row()] + b.remove(y)) == cleared_board(b),
{
    let p = full_pred();
    let np = not_full_pred();
    let pre = b.subrange(0, y);
    let mid = seq![b[y]];
    let post = b.subrange(y + 1, b.len() as int);
    assert(b =~= pre + (mid + post));
    Seq::filter_distributes_over_add(pre, mid + post, p);
    Seq::filter_distributes_over_add(mid, post, p);
    Seq::filter_distributes_over_add(pre, mid + post, np);
    Seq::filter_distributes_over_add(mid, post, np);
    lemma_filter_singleton(b[y], p);
    lemma_filter_singleton(b[y], np);

    let rem = b.remove(y);
    assert(rem =~= pre + post);
    Seq::filter_distributes_over_add(pre, post, p);
    Seq::filter_distributes_over_add(pre, post, np);

    let nb = seq![empty_row()] + rem;
    lemma_empty_row_not_full();
    Seq::filter_distributes_over_add(seq![empty_row()], rem, p);
    Seq::filter_distributes_over_add(seq![empty_row()], rem, np);
    lemma_filter_singleton(empty_row(), p);
    lemma_filter_singleton(empty_row(), np);

    assert(b.filter(p) == pre.filter(p) + (mid.filter(p) + post.filter(p)));
    assert(mid.filter(p) == seq![b[y]]);
    assert(nb.filter(p) == Seq::<Seq<Color>>::empty() + (pre.filter(p) + post.filter(p)));
    assert(nb.filter(p) =~= pre.filter(p) + post.filter(p));
    assert(count_full(nb) == count_full(b) - 1);

    assert(mid.filter(np) == Seq::<Seq<Color>>::empty());
    assert(b.filter(np) == pre.filter(np) + (Seq::<Seq<Color>>::empty() + post.filter(np)));
    assert(Seq::<Seq<Color>>::empty() + post.filter(np) =~= post.filter(np));
    assert(surviving_rows(b) == pre.filter(np) + post.filter(np));
    assert(surviving_rows(nb) == seq![empty_row()] + (pre.filter(np) + post.filter(np)));
    assert(surviving_rows(nb) == seq![empty_row()] + surviving_rows(b));

    let c = count_full(b);
    assert(empty_rows(c) =~= empty_rows((c - 1) as nat) + seq![empty_row()]);
    assert(cleared_board(nb) =~= cleared_board(b));

    assert forall|i: int| 0 <= i < nb.len() implies (#[trigger] nb[i]).len() == FIELD_WIDTH by {
        if i > 0 {
            assert(nb[i] == rem[i - 1]);
            if i - 1 < y {
                assert(rem[i - 1] == b[i - 1]);
            } else {
                assert(rem[i - 1] == b[i]);
            }
        }
    }
}

/// A successful resolution is a legal placement.
pub(crate) proof fn lemma_resolve_ok(
    b: Seq<Seq<Color>>,
    kind: FigureKind,
    rot: Rotation,
    x: int,
    y: int,
    fuel: nat,
)
    ensures
        match resolve_x(b, kind, rot, x, y, fuel) {
            Option::Some(rx) => placement_ok(b, kind, rot, rx, y),
            Option::None => true,
        },
    decreases fuel,
{
    if fuel > 0 {
        match collide_spec(b, kind, rot, x, y) {
            CollideVariant::LeftWall => {
                lemma_resolve_ok(b, kind, rot, x + 1, y, (fuel - 1) as nat);
            },
            CollideVariant::RightWall => {
                lemma_resolve_ok(b, kind, rot, x - 1, y, (fuel - 1) as nat);
            },
            _ => {},
        }
    }
}

/// A frame position clear of both walls keeps every occupied cell on the
/// board horizontally, which pins the frame to a narrow band.
pub(crate) proof fn lemma_walls_clear_x_range(kind: FigureKind, rot: Rotation, x: int)
    requires
        !hits_left_wall(kind, rot, x),
        !hits_right_wall(kind, rot, x),
    ensures
        -3 <= x <= FIELD_WIDTH as int - 1,
{
    crate::shapes::lemma_shape_nonempty(kind, rot);
    let (lx, ly) = choose|lx: int, ly: int| occ(kind, rot, lx, ly);
    assert(x + lx >= 0);
    assert(x + lx < FIELD_WIDTH as int);
}

/// A frame position clear of the floor keeps some occupied cell above
/// the last row, which bounds the frame's row.
pub(crate) proof fn lemma_no_floor_y_bound(
    b: Seq<Seq<Color>>,
    kind: FigureKind,
    rot: Rotation,
    x: int,
    y: int,
)
    requires
        !hits_floor_or_stack(b, kind, rot, x, y),
    ensures
        y <= FIELD_HEIGHT as int - 1,
{
    crate::shapes::lemma_shape_nonempty(kind, rot);
    let (lx, ly) = choose|lx: int, ly: int| occ(kind, rot, lx, ly);
    assert(y + ly < FIELD_HEIGHT as int);
}

/// No occupied cell can hang over the left wall while another hangs over
/// the right wall: the frame is narrower than the board.
pub proof fn lemma_walls_exclusive(kind: FigureKind, rot: Rotation, x: int)
    ensures
        !(hits_left_wall(kind, rot, x) && hits_right_wall(kind, rot, x)),
{
    if hits_left_wall(kind, rot, x) && hits_right_wall(kind, rot, x) {
        let (lx1, ly1) = choose|lx: int, ly: int| occ(kind, rot, lx, ly) && x + lx < 0;
        let (lx2, ly2) = choose|lx: int, ly: int|
            occ(kind, rot, lx, ly) && x + lx >= FIELD_WIDTH as int;
        assert(x < -lx1);
        assert(x >= FIELD_WIDTH as int - lx2);
    }
}

} // verus!
