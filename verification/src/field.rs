//! The playing field: the committed grid of locked cells, the one active
//! falling figure, and the operations that move, rotate, drop, lock and
//! line-clear it.

use vstd::prelude::*;

use crate::color::Color;
use crate::model::board_dims_ok;
use crate::model::cleared_board;
use crate::model::collide_spec;
use crate::model::count_full;
use crate::model::empty_board;
use crate::model::empty_row;
use crate::model::hits_floor_or_stack;
use crate::model::hits_left_wall;
use crate::model::hits_right_wall;
use crate::model::lemma_clear_step;
use crate::model::lemma_cleared_no_full;
use crate::model::lemma_no_floor_y_bound;
use crate::model::lemma_place_prefix_full;
use crate::model::lemma_place_prefix_step;
use crate::model::lemma_place_prefix_zero;
use crate::model::lemma_resolve_ok;
use crate::model::lemma_walls_clear_x_range;
use crate::model::lemma_walls_exclusive;
use crate::model::place_prefix;
use crate::model::place_spec;
use crate::model::placement_ok;
use crate::model::resolve_x;
use crate::model::rest_y;
use crate::model::row_is_full;
use crate::model::set_cell_spec;
use crate::model::snapshot_cell;
use crate::model::CollideVariant;
use crate::model::DROP_LIMIT;
use crate::model::KICK_LIMIT;
use crate::rng::rand_below;
use crate::rng::rng_from_seed;
use crate::shapes::kind_from_index;
use crate::shapes::occ;
use crate::shapes::occupied_cell;
use crate::shapes::spawn_pos;
use crate::shapes::Figure;
use crate::shapes::FigureKind;
use crate::shapes::Pos;
use crate::shapes::Rotation;
use crate::FIELD_HEIGHT;
use crate::FIELD_WIDTH;

verus! {

/// Whether the game still accepts commands.  Play ends when a freshly
/// spawned figure overlaps the locked stack.
#[derive(Copy, Clone, Debug, PartialEq, Eq, Structural)]
enum FieldState {
    Playing,
    GameOver,
}

/// The whole state of one game: the locked grid, the falling figure with
/// its position and orientation, the game phase, and the generator that
/// draws the next pieces.
pub struct Field {
    pieces: Vec<Vec<Color>>,
    current_figure: Figure,
    current_figure_pos: Pos,
    current_figure_rotation: Rotation,
    state: FieldState,
    rng: rand::rngs::StdRng,
}

/// The commands a driver can issue besides the gravity tick and the hard
/// drop.
#[derive(Copy, Clone, Debug, PartialEq, Eq, Structural)]
pub enum InputField {
    Left,
    Right,
    Rotate,
}

/// What locking a piece of kind `kind`, orientation `rot`, hue `c` at
/// frame position `(x, y)` over board `b` leaves behind in `f`: the piece
/// is written into the board, full rows are cleared, and a fresh figure
/// of some kind and hue stands at its spawn offset in spawn orientation.
/// The game ends exactly when that fresh figure already collides.
pub open spec fn lock_outcome_at(
    b: Seq<Seq<Color>>,
    kind: FigureKind,
    rot: Rotation,
    x: int,
    y: int,
    c: Color,
    f: Field,
) -> bool {
    &&& f.board() == cleared_board(place_spec(b, kind, rot, x, y, c))
    &&& f.figure_rot_spec() == Rotation::Spawn
    &&& f.figure_pos_spec() == spawn_pos(f.figure_kind_spec())
    &&& f.figure_color_spec() != Color::Transparent
    &&& (f.game_over_spec() <==> collide_spec(
        f.board(),
        f.figure_kind_spec(),
        Rotation::Spawn,
        spawn_pos(f.figure_kind_spec()).x as int,
        spawn_pos(f.figure_kind_spec()).y as int,
    ) != CollideVariant::NoCollision)
}

/// [`lock_outcome_at`] for a figure locking exactly where `o` holds it.
pub open spec fn lock_outcome(o: Field, f: Field) -> bool {
    lock_outcome_at(
        o.board(),
        o.figure_kind_spec(),
        o.figure_rot_spec(),
        o.figure_pos_spec().x as int,
        o.figure_pos_spec().y as int,
        o.figure_color_spec(),
        f,
    )
}

/// The falling figure and the game phase are the same in `o` and `f`.
pub open spec fn figure_unchanged(o: Field, f: Field) -> bool {
    &&& f.figure_kind_spec() == o.figure_kind_spec()
    &&& f.figure_color_spec() == o.figure_color_spec()
    &&& f.figure_pos_spec() == o.figure_pos_spec()
    &&& f.figure_rot_spec() == o.figure_rot_spec()
    &&& f.game_over_spec() == o.game_over_spec()
}

impl Field {
    /// The locked grid, top row first.
    pub closed spec fn board(self) -> Seq<Seq<Color>> {
        self.pieces@.map_values(|row: Vec<Color>| row@)
    }

    /// The kind of the falling figure.
    pub closed spec fn figure_kind_spec(self) -> FigureKind {
        self.current_figure.kind
    }

    /// The hue the falling figure locks with.
    pub closed spec fn figure_color_spec(self) -> Color {
        self.current_figure.color
    }

    /// The position of the falling figure's frame.
    pub closed spec fn figure_pos_spec(self) -> Pos {
        self.current_figure_pos
    }

    /// The orientation of the falling figure.
    pub closed spec fn figure_rot_spec(self) -> Rotation {
        self.current_figure_rotation
    }

    /// Whether the game has ended.
    pub closed spec fn game_over_spec(self) -> bool {
        self.state == FieldState::GameOver
    }

    /// Well-formedness: the grid has its fixed dimensions, the falling
    /// figure carries a real hue, and its frame position stays in the
    /// narrow band that movement and spawning can reach.
    pub open spec fn wf(self) -> bool {
        &&& board_dims_ok(self.board())
        &&& self.figure_color_spec() != Color::Transparent
        &&& -3 <= self.figure_pos_spec().x as int
        &&& self.figure_pos_spec().x as int <= FIELD_WIDTH as int - 1
        &&& -2 <= self.figure_pos_spec().y as int
        &&& self.figure_pos_spec().y as int <= FIELD_HEIGHT as int - 1
    }

    /// Constructs a fresh game: an empty board and a first figure of a
    /// random kind and hue, standing at its kind's spawn offset.  The
    /// given seed fixes the piece sequence, so runs are reproducible.
    pub fn new(seed: u64) -> (f: Field)
        ensures
            f.wf(),
            f.board() == empty_board(),
            f.figure_rot_spec() == Rotation::Spawn,
            f.figure_pos_spec() == spawn_pos(f.figure_kind_spec()),
            !f.game_over_spec(),
    {
        let mut rng = rng_from_seed(seed);
        let kind = draw_kind(&mut rng);
        let color = draw_color(&mut rng);
        let mut pieces: Vec<Vec<Color>> = Vec::new();
        let mut y: usize = 0;
        while y < FIELD_HEIGHT
            invariant
                y <= FIELD_HEIGHT,
                pieces@.len() == y,
                forall|i: int| 0 <= i < y ==> (#[trigger] pieces@[i])@ == empty_row(),
            decreases FIELD_HEIGHT - y,
        {
            pieces.push(empty_row_vec());
            y += 1;
        }
        let pos = kind.get_pos();
        let f = Field {
            pieces,
            current_figure: Figure { kind, color },
            current_figure_pos: pos,
            current_figure_rotation: Rotation::Spawn,
            state: FieldState::Playing,
            rng,
        };
        proof {
            assert(f.board() =~~= empty_board());
            assert(-2 <= spawn_pos(kind).y as int <= 0);
        }
        f
    }

    /// Returns the locked color of board cell `(x, y)`.
    pub fn read_cell(&self, x: usize, y: usize) -> (c: Color)
        requires
            self.wf(),
            x < FIELD_WIDTH,
            y < FIELD_HEIGHT,
        ensures
            c == self.board()[y as int][x as int],
    {
        self.pieces[y][x]
    }

    /// Writes `color` into board cell `(x, y)` if that cell lies within
    /// the board; a write outside the board is silently ignored, as
    /// happens for cells of a piece still partly above the visible grid.
    pub fn write_cell(&mut self, x: i32, y: i32, color: Color)
        requires
            old(self).wf(),
        ensures
            final(self).wf(),
            figure_unchanged(*old(self), *final(self)),
            final(self).board() == set_cell_spec(old(self).board(), x as int, y as int, color),
    {
        if 0 <= x && x < FIELD_WIDTH as i32 && 0 <= y && y < FIELD_HEIGHT as i32 {
            let xu = x as usize;
            let yu = y as usize;
            proof {
                assert(self.pieces@.len() == self.board().len());
                assert(self.pieces@[yu as int]@ == self.board()[yu as int]);
            }
            self.pieces[yu][xu] = color;
            proof {
                assert(self.board() =~~= set_cell_spec(
                    old(self).board(),
                    x as int,
                    y as int,
                    color,
                ));
            }
        }
    }

    /// Returns whether every cell of row `y` is occupied.
    pub fn is_row_full(&self, y: usize) -> (r: bool)
        requires
            self.wf(),
            y < FIELD_HEIGHT,
        ensures
            r == row_is_full(self.board()[y as int]),
    {
        let mut x: usize = 0;
        while x < FIELD_WIDTH
            invariant
                self.wf(),
                y < FIELD_HEIGHT,
                x <= FIELD_WIDTH,
                forall|ax: int|
                    0 <= ax < x ==> (#[trigger] self.board()[y as int][ax]) != Color::Transparent,
            decreases FIELD_WIDTH - x,
        {
            if self.read_cell(x, y) == Color::Transparent {
                return false;
            }
            x += 1;
        }
        true
    }

    /// Returns the topmost full row, if any row is full.
    fn find_full_row(&self) -> (r: Option<usize>)
        requires
            self.wf(),
        ensures
            match r {
                Some(y) => y < FIELD_HEIGHT && row_is_full(self.board()[y as int]) && forall|
                    ay: int,
                |
                    0 <= ay < y ==> !row_is_full(#[trigger] self.board()[ay]),
                None => forall|ay: int|
                    0 <= ay < FIELD_HEIGHT ==> !row_is_full(#[trigger] self.board()[ay]),
            },
    {
        let mut y: usize = 0;
        while y < FIELD_HEIGHT
            invariant
                self.wf(),
                y <= FIELD_HEIGHT,
                forall|ay: int| 0 <= ay < y ==> !row_is_full(#[trigger] self.board()[ay]),
            decreases FIELD_HEIGHT - y,
        {
            if self.is_row_full(y) {
                return Some(y);
            }
            y += 1;
        }
        None
    }

    /// Removes row `y` and inserts a fresh empty row at the top, shifting
    /// the rows above `y` down by one.  The row count is unchanged.
    pub fn clear_row(&mut self, y: usize)
        requires
            old(self).wf(),
            y < FIELD_HEIGHT,
        ensures
            final(self).wf(),
            figure_unchanged(*old(self), *final(self)),
            final(self).board() == seq![empty_row()] + old(self).board().remove(y as int),
    {
        self.pieces.remove(y);
        let row = empty_row_vec();
        self.pieces.insert(0, row);
        proof {
            let b0 = old(self).board();
            let b1 = self.board();
            let expected = seq![empty_row()] + b0.remove(y as int);
            assert forall|i: int| 0 <= i < b1.len() implies b1[i] == expected[i] by {
                if i == 0 {
                    assert(b1[0] == row@);
                } else {
                    assert(b1[i] == old(self).pieces@.remove(y as int)[i - 1]@);
                }
            }
            assert(b1 =~~= expected);
        }
    }
    /// Locks the falling figure: writes each occupied cell of its frame
    /// into the board with the figure's hue.  Cells outside the board —
    /// of a piece still partly above the visible grid — are ignored.
    pub fn place_current_figure(&mut self)
        requires
            old(self).wf(),
        ensures
            final(self).wf(),
            figure_unchanged(*old(self), *final(self)),
            final(self).board() == place_spec(
                old(self).board(),
                old(self).figure_kind_spec(),
                old(self).figure_rot_spec(),
                old(self).figure_pos_spec().x as int,
                old(self).figure_pos_spec().y as int,
                old(self).figure_color_spec(),
            ),
    {
        let kind = self.current_figure.kind;
        let color = self.current_figure.color;
        let rot = self.current_figure_rotation;
        let pos = self.current_figure_pos;
        proof {
            lemma_place_prefix_zero(
                old(self).board(),
                kind,
                rot,
                pos.x as int,
                pos.y as int,
                color,
            );
        }
        let mut ly: usize = 0;
        while ly < 4
            invariant
                ly <= 4,
                self.wf(),
                old(self).wf(),
                figure_unchanged(*old(self), *self),
                kind == old(self).figure_kind_spec(),
                color == old(self).figure_color_spec(),
                rot == old(self).figure_rot_spec(),
                pos == old(self).figure_pos_spec(),
                self.board() == place_prefix(
                    old(self).board(),
                    kind,
                    rot,
                    pos.x as int,
                    pos.y as int,
                    color,
                    ly as int * 4,
                ),
            decreases 4 - ly,
        {
            let mut lx: usize = 0;
            while lx < 4
                invariant
                    lx <= 4,
                    ly < 4,
                    self.wf(),
                    old(self).wf(),
                    figure_unchanged(*old(self), *self),
                    kind == old(self).figure_kind_spec(),
                    color == old(self).figure_color_spec(),
                    rot == old(self).figure_rot_spec(),
                    pos == old(self).figure_pos_spec(),
                    self.board() == place_prefix(
                        old(self).board(),
                        kind,
                        rot,
                        pos.x as int,
                        pos.y as int,
                        color,
                        ly as int * 4 + lx as int,
                    ),
                decreases 4 - lx,
            {
                proof {
                    lemma_place_prefix_step(
                        old(self).board(),
                        kind,
                        rot,
                        pos.x as int,
                        pos.y as int,
                        color,
                        lx as int,
                        ly as int,
                    );
                }
                if crate::shapes::occupied_cell(kind, rot, lx, ly) {
                    let fx = pos.x + lx as i32;
                    let fy = pos.y + ly as i32;
                    self.write_cell(fx, fy, color);
                }
                lx += 1;
            }
            ly += 1;
        }
        proof {
            lemma_place_prefix_full(
                old(self).board(),
                kind,
                rot,
                pos.x as int,
                pos.y as int,
                color,
            );
        }
    }

    /// Classifies how the falling figure's kind would collide if its
    /// frame stood at `pos` in orientation `rot`: against the left wall,
    /// the right wall, the floor or the locked stack, or not at all.
    /// The left wall is reported before the right one, and the floor or
    /// stack only when neither wall is hit.
    pub fn does_collide(&self, rot: Rotation, pos: Pos) -> (r: CollideVariant)
        requires
            self.wf(),
            -4 <= pos.x as int <= FIELD_WIDTH as int,
            -2 <= pos.y as int <= FIELD_HEIGHT as int,
        ensures
            r == collide_spec(
                self.board(),
                self.figure_kind_spec(),
                rot,
                pos.x as int,
                pos.y as int,
            ),
    {
        let kind = self.current_figure.kind;
        let mut ly: usize = 0;
        while ly < 4
            invariant
                ly <= 4,
                self.wf(),
                kind == self.figure_kind_spec(),
                -4 <= pos.x as int <= FIELD_WIDTH as int,
                forall|ax: int, ay: int|
                    #![trigger occ(kind, rot, ax, ay)]
                    occ(kind, rot, ax, ay) && ay < ly ==> 0 <= pos.x as int + ax
                        < FIELD_WIDTH as int,
            decreases 4 - ly,
        {
            let mut lx: usize = 0;
            while lx < 4
                invariant
                    lx <= 4,
                    ly < 4,
                    self.wf(),
                    kind == self.figure_kind_spec(),
                    -4 <= pos.x as int <= FIELD_WIDTH as int,
                    forall|ax: int, ay: int|
                        #![trigger occ(kind, rot, ax, ay)]
                        occ(kind, rot, ax, ay) && ay < ly ==> 0 <= pos.x as int + ax
                            < FIELD_WIDTH as int,
                    forall|ax: int|
                        #![trigger occ(kind, rot, ax, ly as int)]
                        occ(kind, rot, ax, ly as int) && ax < lx ==> 0 <= pos.x as int + ax
                            < FIELD_WIDTH as int,
                decreases 4 - lx,
            {
                if occupied_cell(kind, rot, lx, ly) {
                    let rx = pos.x + lx as i32;
                    if rx < 0 {
                        proof {
                            assert(hits_left_wall(kind, rot, pos.x as int));
                        }
                        return CollideVariant::LeftWall;
                    }
                    if rx >= FIELD_WIDTH as i32 {
                        proof {
                            assert(hits_right_wall(kind, rot, pos.x as int));
                            lemma_walls_exclusive(kind, rot, pos.x as int);
                        }
                        return CollideVariant::RightWall;
                    }
                }
                lx += 1;
            }
            ly += 1;
        }
        proof {
            assert(!hits_left_wall(kind, rot, pos.x as int));
            assert(!hits_right_wall(kind, rot, pos.x as int));
        }
        let mut ly: usize = 0;
        while ly < 4
            invariant
                ly <= 4,
                self.wf(),
                kind == self.figure_kind_spec(),
                -4 <= pos.x as int <= FIELD_WIDTH as int,
                -2 <= pos.y as int <= FIELD_HEIGHT as int,
                forall|ax: int, ay: int|
                    #![trigger occ(kind, rot, ax, ay)]
                    occ(kind, rot, ax, ay) ==> 0 <= pos.x as int + ax < FIELD_WIDTH as int,
                forall|ax: int, ay: int|
                    #![trigger occ(kind, rot, ax, ay)]
                    occ(kind, rot, ax, ay) && ay < ly ==> pos.y as int + ay < FIELD_HEIGHT as int
                        && (pos.y as int + ay < 0 || self.board()[pos.y as int + ay][pos.x as int
                        + ax] == Color::Transparent),
            decreases 4 - ly,
        {
            let mut lx: usize = 0;
            while lx < 4
                invariant
                    lx <= 4,
                    ly < 4,
                    self.wf(),
                    kind == self.figure_kind_spec(),
                    -4 <= pos.x as int <= FIELD_WIDTH as int,
                    -2 <= pos.y as int <= FIELD_HEIGHT as int,
                    forall|ax: int, ay: int|
                        #![trigger occ(kind, rot, ax, ay)]
                        occ(kind, rot, ax, ay) ==> 0 <= pos.x as int + ax < FIELD_WIDTH as int,
                    forall|ax: int, ay: int|
                        #![trigger occ(kind, rot, ax, ay)]
                        occ(kind, rot, ax, ay) && ay < ly ==> pos.y as int + ay
                            < FIELD_HEIGHT as int && (pos.y as int + ay < 0 || self.board()[pos.y
                            as int + ay][pos.x as int + ax] == Color::Transparent),
                    forall|ax: int|
                        #![trigger occ(kind, rot, ax, ly as int)]
                        occ(kind, rot, ax, ly as int) && ax < lx ==> (pos.y as int + ly as int)
                            < FIELD_HEIGHT as int && ((pos.y as int + ly as int) < 0 || self.board()[
                        pos.y as int + ly as int][pos.x as int + ax] == Color::Transparent),
                decreases 4 - lx,
            {
                if occupied_cell(kind, rot, lx, ly) {
                    let ry = pos.y + ly as i32;
                    if ry >= FIELD_HEIGHT as i32 {
                        return CollideVariant::BottomOrPieces;
                    }
                    if ry >= 0 {
                        let rx = pos.x + lx as i32;
                        if self.read_cell(rx as usize, ry as usize) != Color::Transparent {
                            return CollideVariant::BottomOrPieces;
                        }
                    }
                }
                lx += 1;
            }
            ly += 1;
        }
        proof {
            assert(!hits_floor_or_stack(
                self.board(),
                kind,
                rot,
                pos.x as int,
                pos.y as int,
            ));
        }
        CollideVariant::NoCollision
    }

    /// Runs the line-clear engine: repeatedly finds the topmost full row
    /// and clears it, until no row is full.  The result removes every
    /// full row, pushes one empty row per cleared row in at the top, and
    /// keeps the surviving rows in order.
    pub fn check_lines(&mut self)
        requires
            old(self).wf(),
        ensures
            final(self).wf(),
            figure_unchanged(*old(self), *final(self)),
            final(self).board() == cleared_board(old(self).board()),
    {
        loop
            invariant
                self.wf(),
                figure_unchanged(*old(self), *self),
                cleared_board(self.board()) == cleared_board(old(self).board()),
            ensures
                self.wf(),
                figure_unchanged(*old(self), *self),
                cleared_board(self.board()) == cleared_board(old(self).board()),
                forall|y: int| 0 <= y < FIELD_HEIGHT ==> !row_is_full(#[trigger] self.board()[y]),
            decreases count_full(self.board()),
        {
            let found = self.find_full_row();
            match found {
                Some(y) => {
                    proof {
                        lemma_clear_step(self.board(), y as int);
                    }
                    self.clear_row(y);
                }
                None => {
                    break ;
                }
            }
        }
        proof {
            lemma_cleared_no_full(self.board());
        }
    }
    /// The move/rotate resolver's search step: while a wall is hit, shift
    /// one cell away from it and retry; reject outright on a floor or
    /// stack hit; accept the first collision-free position.  `fuel`
    /// bounds the retries.
    fn resolve_place(&self, rot: Rotation, pos: Pos, fuel: u32) -> (r: Option<Pos>)
        requires
            self.wf(),
            -4 <= pos.x as int <= FIELD_WIDTH as int,
            -2 <= pos.y as int <= FIELD_HEIGHT as int,
        ensures
            match r {
                Some(p) => p.y == pos.y && Option::Some(p.x as int) == resolve_x(
                    self.board(),
                    self.figure_kind_spec(),
                    rot,
                    pos.x as int,
                    pos.y as int,
                    fuel as nat,
                ),
                None => resolve_x(
                    self.board(),
                    self.figure_kind_spec(),
                    rot,
                    pos.x as int,
                    pos.y as int,
                    fuel as nat,
                ) is None,
            },
        decreases fuel,
    {
        if fuel == 0 {
            return None;
        }
        let d = self.does_collide(rot, pos);
        match d {
            CollideVariant::NoCollision => Some(pos),
            CollideVariant::LeftWall => {
                proof {
                    let (lx, ly) = choose|lx: int, ly: int|
                        occ(self.figure_kind_spec(), rot, lx, ly) && pos.x as int + lx < 0;
                    assert(pos.x < 0);
                }
                self.resolve_place(rot, Pos { x: pos.x + 1, y: pos.y }, fuel - 1)
            },
            CollideVariant::RightWall => {
                proof {
                    let (lx, ly) = choose|lx: int, ly: int|
                        occ(self.figure_kind_spec(), rot, lx, ly) && pos.x as int + lx
                            >= FIELD_WIDTH as int;
                    assert(pos.x as int >= FIELD_WIDTH as int - 3);
                }
                self.resolve_place(rot, Pos { x: pos.x - 1, y: pos.y }, fuel - 1)
            },
            CollideVariant::BottomOrPieces => None,
        }
    }

    /// Attempts to place the falling figure's kind at orientation `rot`
    /// and frame position `pos`, kicking horizontally off a wall if
    /// needed.  Returns the accepted position, or `None` if the search
    /// runs into the floor or the locked stack.
    pub fn try_rotation_replace(&self, rot: Rotation, pos: Pos) -> (r: Option<Pos>)
        requires
            self.wf(),
            -4 <= pos.x as int <= FIELD_WIDTH as int,
            -2 <= pos.y as int <= FIELD_HEIGHT as int,
        ensures
            match r {
                Some(p) => {
                    &&& p.y == pos.y
                    &&& Option::Some(p.x as int) == resolve_x(
                        self.board(),
                        self.figure_kind_spec(),
                        rot,
                        pos.x as int,
                        pos.y as int,
                        KICK_LIMIT as nat,
                    )
                    &&& placement_ok(
                        self.board(),
                        self.figure_kind_spec(),
                        rot,
                        p.x as int,
                        p.y as int,
                    )
                    &&& -3 <= p.x as int <= FIELD_WIDTH as int - 1
                },
                None => resolve_x(
                    self.board(),
                    self.figure_kind_spec(),
                    rot,
                    pos.x as int,
                    pos.y as int,
                    KICK_LIMIT as nat,
                ) is None,
            },
    {
        let r = self.resolve_place(rot, pos, KICK_LIMIT);
        proof {
            lemma_resolve_ok(
                self.board(),
                self.figure_kind_spec(),
                rot,
                pos.x as int,
                pos.y as int,
                KICK_LIMIT as nat,
            );
            if let Some(p) = r {
                lemma_walls_clear_x_range(self.figure_kind_spec(), rot, p.x as int);
            }
        }
        r
    }

    /// Attempts the given command: a one-cell horizontal move or a
    /// rotation, resolved with the wall kick.  A rejected command leaves
    /// the state unchanged; after the game has ended every command is
    /// ignored.
    pub fn process_input(&mut self, input: InputField)
        requires
            old(self).wf(),
        ensures
            final(self).wf(),
            old(self).game_over_spec() ==> *final(self) == *old(self),
            final(self).board() == old(self).board(),
            final(self).figure_kind_spec() == old(self).figure_kind_spec(),
            final(self).figure_color_spec() == old(self).figure_color_spec(),
            final(self).game_over_spec() == old(self).game_over_spec(),
            !old(self).game_over_spec() ==> {
                let b = old(self).board();
                let k = old(self).figure_kind_spec();
                let rot = old(self).figure_rot_spec();
                let p = old(self).figure_pos_spec();
                match input {
                    InputField::Left => final(self).figure_rot_spec() == rot && match resolve_x(
                        b,
                        k,
                        rot,
                        p.x as int - 1,
                        p.y as int,
                        KICK_LIMIT as nat,
                    ) {
                        Option::Some(rx) => final(self).figure_pos_spec() == (Pos {
                            x: rx as i32,
                            y: p.y,
                        }),
                        Option::None => final(self).figure_pos_spec() == p,
                    },
                    InputField::Right => final(self).figure_rot_spec() == rot && match resolve_x(
                        b,
                        k,
                        rot,
                        p.x as int + 1,
                        p.y as int,
                        KICK_LIMIT as nat,
                    ) {
                        Option::Some(rx) => final(self).figure_pos_spec() == (Pos {
                            x: rx as i32,
                            y: p.y,
                        }),
                        Option::None => final(self).figure_pos_spec() == p,
                    },
                    InputField::Rotate => match resolve_x(
                        b,
                        k,
                        rot.rotated(),
                        p.x as int,
                        p.y as int,
                        KICK_LIMIT as nat,
                    ) {
                        Option::Some(rx) => final(self).figure_rot_spec() == rot.rotated()
                            && final(self).figure_pos_spec() == (Pos { x: rx as i32, y: p.y }),
                        Option::None => final(self).figure_rot_spec() == rot
                            && final(self).figure_pos_spec() == p,
                    },
                }
            },
    {
        if self.state == FieldState::GameOver {
            return ;
        }
        match input {
            InputField::Left => {
                let old_pos = self.current_figure_pos;
                let cand = Pos { x: old_pos.x - 1, y: old_pos.y };
                if let Some(new_pos) = self.try_rotation_replace(
                    self.current_figure_rotation,
                    cand,
                ) {
                    self.current_figure_pos = new_pos;
                }
            },
            InputField::Right => {
                let old_pos = self.current_figure_pos;
                let cand = Pos { x: old_pos.x + 1, y: old_pos.y };
                if let Some(new_pos) = self.try_rotation_replace(
                    self.current_figure_rotation,
                    cand,
                ) {
                    self.current_figure_pos = new_pos;
                }
            },
            InputField::Rotate => {
                let new_rot = self.current_figure_rotation.rotate();
                if let Some(new_pos) = self.try_rotation_replace(
                    new_rot,
                    self.current_figure_pos,
                ) {
                    self.current_figure_rotation = new_rot;
                    self.current_figure_pos = new_pos;
                }
            },
        }
    }

    /// Locks the falling figure where it stands, clears full rows, and
    /// spawns a fresh figure of a random kind and hue at its spawn
    /// offset.  If the fresh figure already collides, the game ends.
    fn next_figure(&mut self)
        requires
            old(self).wf(),
            !old(self).game_over_spec(),
        ensures
            final(self).wf(),
            lock_outcome(*old(self), *final(self)),
    {
        self.place_current_figure();
        self.check_lines();
        self.current_figure_rotation = Rotation::Spawn;
        let kind = draw_kind(&mut self.rng);
        let color = draw_color(&mut self.rng);
        self.current_figure = Figure { kind, color };
        self.current_figure_pos = kind.get_pos();
        proof {
            assert(-2 <= spawn_pos(kind).y as int <= 0);
        }
        let collide = self.does_collide(Rotation::Spawn, self.current_figure_pos);
        if collide != CollideVariant::NoCollision {
            self.state = FieldState::GameOver;
        }
    }

    /// One gravity step: the figure moves down one row if that position
    /// is collision-free, and otherwise locks where it stands, which
    /// clears lines and spawns the next figure.  After the game has
    /// ended, a step does nothing.
    pub fn make_step(&mut self)
        requires
            old(self).wf(),
        ensures
            final(self).wf(),
            old(self).game_over_spec() ==> *final(self) == *old(self),
            !old(self).game_over_spec() ==> {
                let b = old(self).board();
                let k = old(self).figure_kind_spec();
                let rot = old(self).figure_rot_spec();
                let p = old(self).figure_pos_spec();
                if collide_spec(b, k, rot, p.x as int, p.y as int + 1)
                    == CollideVariant::NoCollision {
                    &&& final(self).board() == b
                    &&& final(self).figure_kind_spec() == k
                    &&& final(self).figure_color_spec() == old(self).figure_color_spec()
                    &&& final(self).figure_rot_spec() == rot
                    &&& final(self).figure_pos_spec() == (Pos { x: p.x, y: (p.y + 1) as i32 })
                    &&& !final(self).game_over_spec()
                } else {
                    lock_outcome(*old(self), *final(self))
                }
            },
    {
        if self.state == FieldState::GameOver {
            return ;
        }
        let new_pos = Pos {
            x: self.current_figure_pos.x,
            y: self.current_figure_pos.y + 1,
        };
        let d = self.does_collide(self.current_figure_rotation, new_pos);
        if d != CollideVariant::NoCollision {
            self.next_figure();
        } else {
            proof {
                lemma_no_floor_y_bound(
                    self.board(),
                    self.figure_kind_spec(),
                    self.figure_rot_spec(),
                    new_pos.x as int,
                    new_pos.y as int,
                );
            }
            self.current_figure_pos = new_pos;
        }
    }

    /// The hard drop: the figure falls straight down to its resting row
    /// and locks there at once, with the same line clear and respawn as a
    /// gravity step that locks.  After the game has ended, it does
    /// nothing.
    pub fn drop_figure(&mut self)
        requires
            old(self).wf(),
        ensures
            final(self).wf(),
            old(self).game_over_spec() ==> *final(self) == *old(self),
            !old(self).game_over_spec() ==> lock_outcome_at(
                old(self).board(),
                old(self).figure_kind_spec(),
                old(self).figure_rot_spec(),
                old(self).figure_pos_spec().x as int,
                rest_y(
                    old(self).board(),
                    old(self).figure_kind_spec(),
                    old(self).figure_rot_spec(),
                    old(self).figure_pos_spec().x as int,
                    old(self).figure_pos_spec().y as int,
                    DROP_LIMIT as nat,
                ),
                old(self).figure_color_spec(),
                *final(self),
            ),
    {
        if self.state == FieldState::GameOver {
            return ;
        }
        let rot = self.current_figure_rotation;
        let x = self.current_figure_pos.x;
        let y0 = self.current_figure_pos.y;
        let mut y = y0;
        loop
            invariant
                self.wf(),
                rot == self.figure_rot_spec(),
                x == self.figure_pos_spec().x,
                y0 == self.figure_pos_spec().y,
                y0 <= y,
                -2 <= y as int <= FIELD_HEIGHT as int - 1,
                y as int - y0 as int <= DROP_LIMIT as int - 1,
                rest_y(
                    self.board(),
                    self.figure_kind_spec(),
                    rot,
                    x as int,
                    y0 as int,
                    DROP_LIMIT as nat,
                ) == rest_y(
                    self.board(),
                    self.figure_kind_spec(),
                    rot,
                    x as int,
                    y as int,
                    (DROP_LIMIT as int - (y as int - y0 as int)) as nat,
                ),
            ensures
                self.wf(),
                rot == self.figure_rot_spec(),
                x == self.figure_pos_spec().x,
                y0 == self.figure_pos_spec().y,
                -2 <= y as int <= FIELD_HEIGHT as int - 1,
                y as int == rest_y(
                    self.board(),
                    self.figure_kind_spec(),
                    rot,
                    x as int,
                    y0 as int,
                    DROP_LIMIT as nat,
                ),
            decreases FIELD_HEIGHT as int - y as int,
        {
            let cand = Pos { x, y: y + 1 };
            let d = self.does_collide(rot, cand);
            if d != CollideVariant::NoCollision {
                break ;
            }
            proof {
                lemma_no_floor_y_bound(
                    self.board(),
                    self.figure_kind_spec(),
                    rot,
                    cand.x as int,
                    cand.y as int,
                );
            }
            y = y + 1;
        }
        self.current_figure_pos = Pos { x, y };
        self.next_figure();
    }
    /// The snapshot for rendering: `FIELD_HEIGHT` rows of
    /// `FIELD_WIDTH + 8` cells in row-major order, combining the locked
    /// board with the falling figure overlaid at its position.  A margin
    /// of 4 always-empty columns on each side leaves room for a frame
    /// hanging over the playfield's edge.
    pub fn draw_array(&self) -> (r: Vec<Color>)
        requires
            self.wf(),
        ensures
            r@.len() == FIELD_HEIGHT * (FIELD_WIDTH + 8),
            forall|sx: int, sy: int|
                #![trigger r@[sy * ((FIELD_WIDTH + 8) as int) + sx]]
                0 <= sx < FIELD_WIDTH + 8 && 0 <= sy < FIELD_HEIGHT ==> r@[sy * ((FIELD_WIDTH
                    + 8) as int) + sx] == snapshot_cell(
                    self.board(),
                    self.figure_kind_spec(),
                    self.figure_rot_spec(),
                    self.figure_pos_spec().x as int,
                    self.figure_pos_spec().y as int,
                    self.figure_color_spec(),
                    sx,
                    sy,
                ),
    {
        let kind = self.current_figure.kind;
        let color = self.current_figure.color;
        let rot = self.current_figure_rotation;
        let pos = self.current_figure_pos;
        let mut r: Vec<Color> = Vec::new();
        let mut sy: usize = 0;
        while sy < FIELD_HEIGHT
            invariant
                sy <= FIELD_HEIGHT,
                self.wf(),
                kind == self.figure_kind_spec(),
                color == self.figure_color_spec(),
                rot == self.figure_rot_spec(),
                pos == self.figure_pos_spec(),
                r@.len() == sy * (FIELD_WIDTH + 8),
                forall|ax: int, ay: int|
                    #![trigger r@[ay * ((FIELD_WIDTH + 8) as int) + ax]]
                    0 <= ax < FIELD_WIDTH + 8 && 0 <= ay < sy ==> r@[ay * ((FIELD_WIDTH
                        + 8) as int) + ax] == snapshot_cell(
                        self.board(),
                        kind,
                        rot,
                        pos.x as int,
                        pos.y as int,
                        color,
                        ax,
                        ay,
                    ),
            decreases FIELD_HEIGHT - sy,
        {
            let mut sx: usize = 0;
            while sx < FIELD_WIDTH + 8
                invariant
                    sx <= FIELD_WIDTH + 8,
                    sy < FIELD_HEIGHT,
                    self.wf(),
                    kind == self.figure_kind_spec(),
                    color == self.figure_color_spec(),
                    rot == self.figure_rot_spec(),
                    pos == self.figure_pos_spec(),
                    r@.len() == sy * (FIELD_WIDTH + 8) + sx,
                    forall|ax: int, ay: int|
                        #![trigger r@[ay * ((FIELD_WIDTH + 8) as int) + ax]]
                        0 <= ax < FIELD_WIDTH + 8 && 0 <= ay < sy ==> r@[ay * ((FIELD_WIDTH
                            + 8) as int) + ax] == snapshot_cell(
                            self.board(),
                            kind,
                            rot,
                            pos.x as int,
                            pos.y as int,
                            color,
                            ax,
                            ay,
                        ),
                    forall|ax: int|
                        #![trigger r@[sy as int * ((FIELD_WIDTH + 8) as int) + ax]]
                        0 <= ax < sx ==> r@[sy as int * ((FIELD_WIDTH + 8) as int) + ax]
                            == snapshot_cell(
                            self.board(),
                            kind,
                            rot,
                            pos.x as int,
                            pos.y as int,
                            color,
                            ax,
                            sy as int,
                        ),
                decreases FIELD_WIDTH + 8 - sx,
            {
                let cell: Color;
                if sx < 4 || sx >= FIELD_WIDTH + 4 {
                    cell = Color::Transparent;
                } else {
                    let bx = sx - 4;
                    let base = self.read_cell(bx, sy);
                    let fx = bx as i32 - pos.x;
                    let fy = sy as i32 - pos.y;
                    if crate::shapes::occupied_in_frame(kind, rot, fx, fy) {
                        cell = color;
                    } else {
                        cell = base;
                    }
                }
                let ghost r0 = r@;
                r.push(cell);
                proof {
                    let k = (FIELD_WIDTH + 8) as int;
                    let syi = sy as int;
                    assert forall|ax: int, ay: int|
                        #![trigger r@[ay * ((FIELD_WIDTH + 8) as int) + ax]]
                        0 <= ax < FIELD_WIDTH + 8 && 0 <= ay < syi implies r@[ay * k + ax]
                        == snapshot_cell(
                        self.board(),
                        kind,
                        rot,
                        pos.x as int,
                        pos.y as int,
                        color,
                        ax,
                        ay,
                    ) by {
                        assert((ay + 1) * k <= syi * k) by (nonlinear_arith)
                            requires
                                0 <= ay < syi,
                                k == 18,
                        ;
                        assert(r0[ay * k + ax] == snapshot_cell(
                            self.board(),
                            kind,
                            rot,
                            pos.x as int,
                            pos.y as int,
                            color,
                            ax,
                            ay,
                        ));
                        assert(r@[ay * k + ax] == r0[ay * k + ax]);
                    }
                    assert forall|ax: int|
                        #![trigger r@[sy as int * ((FIELD_WIDTH + 8) as int) + ax]]
                        0 <= ax < sx + 1 implies r@[syi * k + ax] == snapshot_cell(
                        self.board(),
                        kind,
                        rot,
                        pos.x as int,
                        pos.y as int,
                        color,
                        ax,
                        syi,
                    ) by {
                        if ax < sx {
                            assert(r0[syi * k + ax] == snapshot_cell(
                                self.board(),
                                kind,
                                rot,
                                pos.x as int,
                                pos.y as int,
                                color,
                                ax,
                                syi,
                            ));
                            assert(r@[syi * k + ax] == r0[syi * k + ax]);
                        } else {
                            assert(r@[syi * k + ax] == cell);
                        }
                    }
                }
                sx += 1;
            }
            proof {
                let k = (FIELD_WIDTH + 8) as int;
                let syi = sy as int;
                assert((syi + 1) * k == syi * k + k) by (nonlinear_arith);
                assert forall|ax: int, ay: int|
                    #![trigger r@[ay * ((FIELD_WIDTH + 8) as int) + ax]]
                    0 <= ax < FIELD_WIDTH + 8 && 0 <= ay < syi + 1 implies r@[ay * k + ax]
                    == snapshot_cell(
                    self.board(),
                    kind,
                    rot,
                    pos.x as int,
                    pos.y as int,
                    color,
                    ax,
                    ay,
                ) by {
                    if 0 <= ay < syi {
                        assert((ay + 1) * k <= syi * k) by (nonlinear_arith)
                            requires
                                0 <= ay < syi,
                                k == 18,
                        ;
                        assert(r@[ay * k + ax] == snapshot_cell(
                            self.board(),
                            kind,
                            rot,
                            pos.x as int,
                            pos.y as int,
                            color,
                            ax,
                            ay,
                        ));
                    } else {
                        assert(r@[syi * k + ax] == snapshot_cell(
                            self.board(),
                            kind,
                            rot,
                            pos.x as int,
                            pos.y as int,
                            color,
                            ax,
                            syi,
                        ));
                    }
                }
            }
            sy += 1;
        }
        proof {
            assert(r@.len() == FIELD_HEIGHT * (FIELD_WIDTH + 8)) by (nonlinear_arith)
                requires
                    r@.len() == FIELD_HEIGHT as int * ((FIELD_WIDTH + 8) as int),
            ;
        }
        r
    }

    /// Returns the kind of the falling figure.
    pub fn figure_kind(&self) -> (k: FigureKind)
        ensures
            k == self.figure_kind_spec(),
    {
        self.current_figure.kind
    }

    /// Returns the hue of the falling figure.
    pub fn figure_color(&self) -> (c: Color)
        ensures
            c == self.figure_color_spec(),
    {
        self.current_figure.color
    }

    /// Returns the frame position of the falling figure.
    pub fn figure_pos(&self) -> (p: Pos)
        ensures
            p == self.figure_pos_spec(),
    {
        self.current_figure_pos
    }

    /// Returns the orientation of the falling figure.
    pub fn figure_rotation(&self) -> (r: Rotation)
        ensures
            r == self.figure_rot_spec(),
    {
        self.current_figure_rotation
    }

    /// Returns whether the game has ended.
    pub fn game_over(&self) -> (r: bool)
        ensures
            r == self.game_over_spec(),
    {
        self.state == FieldState::GameOver
    }
}

/// A freshly allocated all-empty row.
fn empty_row_vec() -> (v: Vec<Color>)
    ensures
        v@ == empty_row(),
{
    let mut v: Vec<Color> = Vec::new();
    let mut x: usize = 0;
    while x < FIELD_WIDTH
        invariant
            x <= FIELD_WIDTH,
            v@.len() == x,
            forall|i: int| 0 <= i < x ==> (#[trigger] v@[i]) == Color::Transparent,
        decreases FIELD_WIDTH - x,
    {
        v.push(Color::Transparent);
        x += 1;
    }
    proof {
        assert(v@ =~= empty_row());
    }
    v
}

/// Draws a piece kind, uniformly over the seven kinds.
fn draw_kind(rng: &mut rand::rngs::StdRng) -> FigureKind {
    let i = rand_below(rng, 7);
    kind_from_index(i)
}

/// Draws a hue, uniformly over the six non-empty hues.
fn draw_color(rng: &mut rand::rngs::StdRng) -> (c: Color)
    ensures
        c != Color::Transparent,
{
    let i = rand_below(rng, 6);
    crate::color::color_from_index(i + 1)
}

} // verus!
