//! Template matching decisions: where a small image (the needle) occurs in a
//! larger one (the haystack), given the similarity scores of every placement.
//!
//! The pixel work (decoding, correlation, rescaling, drawing, encoding) belongs
//! to an imaging backend. This crate holds what is decided around it: which
//! image pairs can be searched, what shape the score matrix has, which
//! placements count as matches and in which order they are reported, which
//! placement is the best one, where an outline is drawn, and how each failure
//! is reported.

pub mod error;
pub mod geometry;

pub mod io;
pub mod laws;
pub mod matrix;
pub mod score;
pub mod search;

pub use crate::error::{Error, ErrorKind, Failure, Step};
pub use crate::geometry::{Extent, Outline, Position};
pub use crate::io::Print;
pub use crate::matrix::{Match, ScoreMatrix};
pub use crate::score::Score;
pub use crate::search::{GetPosition, Templated};
