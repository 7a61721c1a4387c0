//! Release tooling for a directory of pending change fragments.
//!
//! Each fragment describes one not-yet-released change. From a batch of them
//! this crate derives the semantic-version bump that the next release needs
//! and the changelog section that announces it.

pub mod change;
pub mod error;
pub mod fragment;
pub mod group;
pub mod kind;
pub mod level;
pub mod order;
pub mod policy;
pub mod render;
pub mod sort;
pub mod text;
pub mod version;
