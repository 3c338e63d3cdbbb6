//! Repository topology and in-progress state resolution: linked worktree
//! enumeration, main-repository linkage, bareness, the thread policy for index
//! decoding, and classification of the operation a git directory is in.

pub mod bytes;
pub mod index;
pub mod repository;
pub mod state;
pub mod order;
pub mod worktree;
