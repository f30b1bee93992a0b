use tetris::Color;
use tetris::Field;
use tetris::FigureKind;
use tetris::InputField;
use tetris::Pos;
use tetris::Rotation;
use tetris::FIELD_HEIGHT;
use tetris::FIELD_WIDTH;

fn count_nonempty(f: &Field) -> usize {
    let mut n = 0;
    for y in 0..FIELD_HEIGHT {
        for x in 0..FIELD_WIDTH {
            if f.read_cell(x, y) != Color::Transparent {
                n += 1;
            }
        }
    }
    n
}

#[test]
fn new_game_is_empty_and_spawned() {
    let f = Field::new(1);
    assert!(!f.game_over());
    assert_eq!(f.figure_rotation(), Rotation::Spawn);
    assert_eq!(f.figure_pos(), f.figure_kind().get_pos());
    assert_ne!(f.figure_color(), Color::Transparent);
    assert_eq!(count_nonempty(&f), 0);
}

#[test]
fn rotation_cycles_in_four_steps() {
    assert_eq!(Rotation::Spawn.rotate(), Rotation::Right);
    assert_eq!(Rotation::Right.rotate(), Rotation::Flipped);
    assert_eq!(Rotation::Flipped.rotate(), Rotation::Left);
    assert_eq!(Rotation::Left.rotate(), Rotation::Spawn);
}

#[test]
fn bar_bitmaps_match_catalog() {
    let spawn = FigureKind::Bar.get_rect(Rotation::Spawn);
    let expected = vec![
        vec![0u8, 1, 0, 0],
        vec![0u8, 1, 0, 0],
        vec![0u8, 1, 0, 0],
        vec![0u8, 1, 0, 0],
    ];
    assert_eq!(spawn, expected);
    let right = FigureKind::Bar.get_rect(Rotation::Right);
    let expected_right = vec![
        vec![0u8, 0, 0, 0],
        vec![1u8, 1, 1, 1],
        vec![0u8, 0, 0, 0],
        vec![0u8, 0, 0, 0],
    ];
    assert_eq!(right, expected_right);
}

#[test]
fn every_bitmap_has_four_cells() {
    let kinds = [
        FigureKind::Bar,
        FigureKind::PZ,
        FigureKind::NZ,
        FigureKind::PL,
        FigureKind::NL,
        FigureKind::Square,
        FigureKind::T,
    ];
    let rots = [Rotation::Spawn, Rotation::Left, Rotation::Right, Rotation::Flipped];
    for kind in kinds {
        for rot in rots {
            let rect = kind.get_rect(rot);
            let cells: u32 = rect.iter().map(|row| row.iter().map(|&c| c as u32).sum::<u32>()).sum();
            assert_eq!(cells, 4, "kind {:?} rot {:?}", kind, rot);
        }
    }
}

#[test]
fn spawn_offsets_match_catalog() {
    assert_eq!(FigureKind::Bar.get_pos(), Pos { x: 4, y: -2 });
    assert_eq!(FigureKind::T.get_pos(), Pos { x: 4, y: -1 });
    assert_eq!(FigureKind::Square.get_pos(), Pos { x: 4, y: 0 });
    assert_eq!(FigureKind::PZ.get_pos(), Pos { x: 4, y: 0 });
}

#[test]
fn rgba_channels_are_exact() {
    assert_eq!(Color::Red.rgba(), (255, 0, 0, 255));
    assert_eq!(Color::Transparent.rgba(), (0, 0, 0, 255));
    assert_eq!(Color::Yellow.rgba(), (255, 255, 0, 255));
}

#[test]
fn write_cell_is_bounded() {
    let mut f = Field::new(2);
    f.write_cell(3, 5, Color::Red);
    assert_eq!(f.read_cell(3, 5), Color::Red);
    let before = count_nonempty(&f);
    f.write_cell(-1, 5, Color::Green);
    f.write_cell(FIELD_WIDTH as i32, 5, Color::Green);
    f.write_cell(3, -2, Color::Green);
    f.write_cell(3, FIELD_HEIGHT as i32, Color::Green);
    assert_eq!(count_nonempty(&f), before);
}

#[test]
fn is_row_full_detects_a_full_row() {
    let mut f = Field::new(2);
    for x in 0..FIELD_WIDTH {
        f.write_cell(x as i32, 19, Color::Blue);
    }
    assert!(f.is_row_full(19));
    assert!(!f.is_row_full(18));
    let mut g = Field::new(2);
    for x in 0..FIELD_WIDTH - 1 {
        g.write_cell(x as i32, 19, Color::Blue);
    }
    assert!(!g.is_row_full(19));
}

#[test]
fn clear_row_shifts_rows_down() {
    let mut f = Field::new(2);
    f.write_cell(0, 10, Color::Red);
    f.write_cell(9, 12, Color::Green);
    f.clear_row(12);
    // The row above the cleared one moved down by one; the top row is new
    // and empty.
    assert_eq!(f.read_cell(0, 11), Color::Red);
    assert_eq!(f.read_cell(9, 12), Color::Transparent);
    for x in 0..FIELD_WIDTH {
        assert_eq!(f.read_cell(x, 0), Color::Transparent);
    }
}

#[test]
fn check_lines_clears_two_full_rows_and_keeps_order() {
    let mut f = Field::new(2);
    // A marker pattern above two full rows.
    f.write_cell(2, 17, Color::Magenta);
    for x in 0..FIELD_WIDTH {
        f.write_cell(x as i32, 18, Color::Blue);
        f.write_cell(x as i32, 19, Color::Green);
    }
    let before = count_nonempty(&f);
    f.check_lines();
    // Both full rows vanished, the marker dropped by two rows, and the two
    // fresh top rows are empty: the row count is unchanged.
    assert_eq!(count_nonempty(&f), before - 2 * FIELD_WIDTH);
    assert_eq!(f.read_cell(2, 19), Color::Magenta);
    for y in 0..2 {
        for x in 0..FIELD_WIDTH {
            assert_eq!(f.read_cell(x, y), Color::Transparent);
        }
    }
    for y in 0..FIELD_HEIGHT {
        assert!(!f.is_row_full(y));
    }
}

#[test]
fn check_lines_clears_four_simultaneous_rows() {
    let mut f = Field::new(2);
    f.write_cell(7, 15, Color::Yellow);
    for y in 16..20 {
        for x in 0..FIELD_WIDTH {
            f.write_cell(x as i32, y, Color::Red);
        }
    }
    f.check_lines();
    assert_eq!(count_nonempty(&f), 1);
    assert_eq!(f.read_cell(7, 19), Color::Yellow);
    for y in 0..4 {
        for x in 0..FIELD_WIDTH {
            assert_eq!(f.read_cell(x, y), Color::Transparent);
        }
    }
}

#[test]
fn resolver_accepts_a_free_position_and_rejects_the_floor() {
    let f = Field::new(6);
    let pos = f.figure_pos();
    let rot = f.figure_rotation();
    // The spawn position on an empty board is already collision-free, so
    // the resolver accepts it unchanged.
    assert_eq!(f.try_rotation_replace(rot, pos), Some(pos));
    // A frame on the bottom row pushes some occupied cell below the
    // board, whatever the kind: no kick can fix that, so it is rejected.
    let sunk = Pos { x: pos.x, y: FIELD_HEIGHT as i32 - 1 };
    assert_eq!(f.try_rotation_replace(rot, sunk), None);
}

#[test]
fn move_right_and_back() {
    let mut f = Field::new(4);
    let x0 = f.figure_pos().x;
    f.process_input(InputField::Right);
    assert_eq!(f.figure_pos().x, x0 + 1);
    f.process_input(InputField::Left);
    assert_eq!(f.figure_pos().x, x0);
}

#[test]
fn move_left_at_boundary_is_rejected() {
    let mut f = Field::new(4);
    for _ in 0..(FIELD_WIDTH + 4) {
        f.process_input(InputField::Left);
    }
    let at_wall = f.figure_pos();
    // One more command to move left of the boundary: the position must
    // not change.
    f.process_input(InputField::Left);
    assert_eq!(f.figure_pos(), at_wall);
    // And indeed some occupied cell sits in column 0: moving further left
    // would leave the board.
    let rect = f.figure_kind().get_rect(f.figure_rotation());
    let mut leftmost = 4i32;
    for row in &rect {
        for (lx, &c) in row.iter().enumerate() {
            if c == 1 && (lx as i32) < leftmost {
                leftmost = lx as i32;
            }
        }
    }
    assert_eq!(at_wall.x + leftmost, 0);
}

#[test]
fn rotating_a_bar_at_the_right_wall_kicks_left() {
    // Probe seeds until the first figure is the bar.
    let mut bar_game = None;
    for seed in 0..500 {
        let f = Field::new(seed);
        if f.figure_kind() == FigureKind::Bar {
            bar_game = Some(f);
            break;
        }
    }
    let mut f = bar_game.expect("some seed spawns a bar first");
    // The vertical bar occupies column 1 of its frame; push it flush
    // against the right wall.
    for _ in 0..FIELD_WIDTH {
        f.process_input(InputField::Right);
    }
    assert_eq!(f.figure_pos().x, FIELD_WIDTH as i32 - 2);
    // Rotating makes it horizontal over frame columns 0..4, which cannot
    // stand at x = 8: the resolver kicks it left by the minimum amount,
    // to x = 6.
    f.process_input(InputField::Rotate);
    assert_eq!(f.figure_rotation(), Rotation::Right);
    assert_eq!(f.figure_pos().x, FIELD_WIDTH as i32 - 4);
}

#[test]
fn seeded_games_are_reproducible() {
    let mut a = Field::new(42);
    let mut b = Field::new(42);
    assert_eq!(a.figure_kind(), b.figure_kind());
    assert_eq!(a.figure_color(), b.figure_color());
    for _ in 0..5 {
        a.drop_figure();
        b.drop_figure();
        assert_eq!(a.figure_kind(), b.figure_kind());
        assert_eq!(a.figure_color(), b.figure_color());
    }
    for y in 0..FIELD_HEIGHT {
        for x in 0..FIELD_WIDTH {
            assert_eq!(a.read_cell(x, y), b.read_cell(x, y));
        }
    }
}

#[test]
fn different_seeds_vary_the_pieces() {
    let mut kinds = Vec::new();
    for seed in 0..30 {
        let f = Field::new(seed);
        let k = f.figure_kind();
        if !kinds.contains(&k) {
            kinds.push(k);
        }
    }
    assert!(kinds.len() >= 2);
}

#[test]
fn draw_array_matches_board_and_figure() {
    let mut f = Field::new(9);
    f.write_cell(0, 19, Color::Cyan);
    let snap = f.draw_array();
    assert_eq!(snap.len(), FIELD_HEIGHT * (FIELD_WIDTH + 8));
    let rect = f.figure_kind().get_rect(f.figure_rotation());
    let pos = f.figure_pos();
    for sy in 0..FIELD_HEIGHT {
        for sx in 0..FIELD_WIDTH + 8 {
            let got = snap[sy * (FIELD_WIDTH + 8) + sx];
            let expected = if sx < 4 || sx >= FIELD_WIDTH + 4 {
                Color::Transparent
            } else {
                let bx = (sx - 4) as i32;
                let fx = bx - pos.x;
                let fy = sy as i32 - pos.y;
                let on_figure = fx >= 0
                    && fx < 4
                    && fy >= 0
                    && fy < 4
                    && rect[fy as usize][fx as usize] == 1;
                if on_figure {
                    f.figure_color()
                } else {
                    f.read_cell(sx - 4, sy)
                }
            };
            assert_eq!(got, expected, "snapshot cell ({}, {})", sx, sy);
        }
    }
}
