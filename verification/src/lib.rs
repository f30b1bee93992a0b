//! A falling-block puzzle engine.
//!
//! The crate owns a fixed 10 x 20 grid of colored cells and one actively
//! falling tetromino, and implements the rules that move, rotate, drop,
//! lock and line-clear that piece.  Rendering, windowing and input mapping
//! are left to the caller, which drives the engine through
//! [`Field::process_input`], [`Field::make_step`] and [`Field::drop_figure`]
//! and reads back a cell snapshot with [`Field::draw_array`].

pub mod color;
pub mod field;
pub mod laws;
pub mod model;
mod rng;
pub mod shapes;

pub use color::Color;
pub use field::Field;
pub use field::InputField;
pub use model::CollideVariant;
pub use shapes::Figure;
pub use shapes::FigureKind;
pub use shapes::Pos;
pub use shapes::Rotation;

use vstd::prelude::*;

verus! {

/// Number of columns of the playing field.
pub const FIELD_WIDTH: usize = 10;

/// Number of rows of the playing field.
pub const FIELD_HEIGHT: usize = 20;

} // verus!
