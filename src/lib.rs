//! Core of a terminal tool for commenting on diffs: a line-addressable diff model, the
//! normalizer that builds it from backend records, context gaps between hunks,
//! comment anchors resolved against the live diff, and highlight composition.

pub mod anchor;
pub mod editor;
pub mod error;
pub mod gap;
pub mod model;
pub mod normalize;
pub mod style;
pub mod styles;
pub mod syntax;
pub mod text;
