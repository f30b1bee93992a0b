use tetris::Color;
use tetris::Field;
use tetris::FigureKind;
use tetris::InputField;
use tetris::FIELD_HEIGHT;
use tetris::FIELD_WIDTH;
use tetris::Rotation;

fn count_nonempty(f: &Field) -> usize {
    let mut n = 0;
    for y in 0..FIELD_HEIGHT {
        for x in 0..FIELD_WIDTH {
            if f.read_cell(x, y) != Color::Transparent {
                n += 1;
            }
        }
    }
    n
}

fn no_row_full(f: &Field) -> bool {
    (0..FIELD_HEIGHT).all(|y| !f.is_row_full(y))
}

#[test]
fn repeated_ticks_lock_at_the_bottom_and_spawn_once() {
    let mut f = Field::new(3);
    let mut locks = 0;
    let mut ticks = 0;
    let mut first_lock_tick = None;
    while locks < 3 && ticks < 200 {
        let pos_before = f.figure_pos();
        let cells_before = count_nonempty(&f);
        f.make_step();
        ticks += 1;
        let pos_after = f.figure_pos();
        let cells_after = count_nonempty(&f);
        if cells_after == cells_before && pos_after.x == pos_before.x && pos_after.y == pos_before.y + 1 {
            // A plain fall: one row down, nothing locked, no new figure.
        } else {
            // A lock: exactly the four cells of one piece joined the
            // board, and exactly one new figure stands at its spawn
            // offset in spawn orientation.
            assert_eq!(cells_after, cells_before + 4);
            assert_eq!(f.figure_rotation(), Rotation::Spawn);
            assert_eq!(f.figure_pos(), f.figure_kind().get_pos());
            locks += 1;
            if first_lock_tick.is_none() {
                first_lock_tick = Some(ticks);
            }
        }
    }
    assert_eq!(locks, 3);
    // The first figure cannot fall for longer than the board is tall,
    // plus the two rows it may start above the grid.
    assert!(first_lock_tick.unwrap() <= FIELD_HEIGHT + 3);
    // The first piece locked with its lowest cell on the bottom row.
    let bottom_occupied = (0..FIELD_WIDTH).any(|x| f.read_cell(x, FIELD_HEIGHT - 1) != Color::Transparent);
    assert!(bottom_occupied);
}

#[test]
fn hard_drop_locks_immediately() {
    let mut f = Field::new(5);
    assert_eq!(count_nonempty(&f), 0);
    f.drop_figure();
    assert_eq!(count_nonempty(&f), 4);
    assert_eq!(f.figure_rotation(), Rotation::Spawn);
    assert_eq!(f.figure_pos(), f.figure_kind().get_pos());
    let bottom_occupied = (0..FIELD_WIDTH).any(|x| f.read_cell(x, FIELD_HEIGHT - 1) != Color::Transparent);
    assert!(bottom_occupied);
}

/// How to drop a piece so that exactly one of its cells lands on the
/// bottom row, in the column the frame's given local column maps to:
/// the number of rotate presses and the frame x that puts the single
/// bottom cell into the target column.
fn gap_plan(kind: FigureKind, target: i32) -> Option<(usize, i32)> {
    match kind {
        // Vertical bar: column 1 of the frame, single bottom cell.
        FigureKind::Bar => Some((0, target - 1)),
        // T in spawn orientation has one bottom cell at frame column 1.
        FigureKind::T => Some((0, target - 1)),
        // Rotated three times, PZ has its single bottom cell at frame
        // column 0.
        FigureKind::PZ => Some((3, target)),
        // Rotated three times, NZ has it at frame column 1.
        FigureKind::NZ => Some((3, target - 1)),
        // Rotated twice, PL has it at frame column 1.
        FigureKind::PL => Some((2, target - 1)),
        // Rotated twice, NL has it at frame column 1.
        FigureKind::NL => Some((2, target - 1)),
        // The square always has two bottom cells: it cannot fill a
        // one-cell gap.
        FigureKind::Square => None,
    }
}

#[test]
fn filling_the_last_gap_clears_exactly_that_row() {
    let mut f = Field::new(7);
    let gap_x: i32 = 5;
    for x in 0..FIELD_WIDTH as i32 {
        if x != gap_x {
            f.write_cell(x, FIELD_HEIGHT as i32 - 1, Color::Red);
        }
    }
    let mut cleared = false;
    for _ in 0..30 {
        match gap_plan(f.figure_kind(), gap_x) {
            None => {
                // Park the square at the far left, out of the way.
                for _ in 0..FIELD_WIDTH {
                    f.process_input(InputField::Left);
                }
                f.drop_figure();
                assert!(!f.game_over());
            }
            Some((presses, frame_x)) => {
                for _ in 0..presses {
                    f.process_input(InputField::Rotate);
                }
                let mut steps = 0;
                while f.figure_pos().x != frame_x && steps < 15 {
                    if f.figure_pos().x > frame_x {
                        f.process_input(InputField::Left);
                    } else {
                        f.process_input(InputField::Right);
                    }
                    steps += 1;
                }
                assert_eq!(f.figure_pos().x, frame_x);
                let before = count_nonempty(&f);
                f.drop_figure();
                // The piece's four cells went in and the completed row's
                // ten cells went out.
                assert_eq!(count_nonempty(&f), before + 4 - FIELD_WIDTH);
                // Exactly that one row disappeared: nothing is full any
                // more, an empty row stands at the top, and the piece's
                // remaining cells moved down onto the bottom row.
                assert!(no_row_full(&f));
                for x in 0..FIELD_WIDTH {
                    assert_eq!(f.read_cell(x, 0), Color::Transparent);
                }
                assert_ne!(f.read_cell(gap_x as usize, FIELD_HEIGHT - 1), Color::Transparent);
                cleared = true;
            }
        }
        if cleared {
            break;
        }
    }
    assert!(cleared);
}

#[test]
fn blocked_spawn_ends_the_game() {
    let mut f = Field::new(11);
    // Every kind's spawn frame covers board cell (5, 0) or (5, 1); with
    // both occupied, the next spawn must collide.
    f.write_cell(5, 0, Color::Green);
    f.write_cell(5, 1, Color::Green);
    f.drop_figure();
    assert!(f.game_over());
    // A finished game ignores every further command.
    let snap = f.draw_array();
    let pos = f.figure_pos();
    f.make_step();
    f.drop_figure();
    f.process_input(InputField::Left);
    f.process_input(InputField::Rotate);
    assert_eq!(f.figure_pos(), pos);
    assert_eq!(f.draw_array(), snap);
}
