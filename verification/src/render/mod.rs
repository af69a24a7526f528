//! Renderers: every output format as a `String`, so that a server which keeps
//! its standard output for protocol messages can use them too.

pub mod groups;
pub mod results;
pub mod summary;
pub mod tree;

pub use groups::{grouped, grouped_at};
pub use results::{compact, outline};
pub use summary::{deps_summary, impact_summary};
pub use tree::{dep_tree, next_files, walk_dep_tree};
