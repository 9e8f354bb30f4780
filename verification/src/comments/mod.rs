//! Local TUI comments, markdown export, and entity-reference copy.
//!
//! Records are namespaced by workspace identity inside one JSON file.
//! Comments never write into user git repos. `y` copies the focused row's
//! comments as markdown (resolved ones carry `[resolved]`). `'` copies a
//! pasteable entity reference for the focused row.

pub mod store;
pub mod reference;
pub mod export;
pub mod overlay;
pub mod target;
pub mod live;
pub mod scope;
