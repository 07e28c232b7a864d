//! A text shaping and justification engine.
//!
//! Given a run of text with style attributes, the engine produces an ordered
//! sequence of positioned glyphs from one or more fonts, annotated so that a
//! line breaker can reslice, rejustify and render the result without invoking
//! the shaper again. Font selection and the OpenType shaper itself are
//! collaborators reached through the [`shape::ShapingHost`] trait; all
//! measurements are exact fixed-point quantities.

use vstd::prelude::*;

pub mod geom;
pub mod font;
pub mod styles;
pub mod glyph;
pub mod text;
pub mod shape;
pub mod frame;
pub mod laws;
