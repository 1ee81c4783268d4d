//! A compiler from an indentation-based template language (tag, attribute
//! and control-flow syntax in the style of Pug) to HTML text, together with
//! a byte-accurate correspondence between spans of the generated HTML and
//! the spans of template source they were derived from.
//!
//! The tree produced by the external parser is consumed through [`PugNode`];
//! [`compile`] walks it once, depth-first, and returns the HTML bytes, the
//! ordered correspondence list and the diagnostics collected on the way.

pub mod laws;
pub mod literals;
pub mod model;
pub mod node;
pub mod state;
pub mod visit;
pub mod voids;

pub use node::{NodeKind, PugNode};
pub use state::{CompileState, CorrespondenceRange, Diagnostic};
pub use visit::{compile, traverse_tree};
pub use voids::is_void_element;
