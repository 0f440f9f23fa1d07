//! Release metadata from Conventional Commits: the commits of a range are
//! parsed, sorted into changelog categories, used to pick the next semantic
//! version, and rendered as Markdown or JSON.

pub mod text;
pub mod commit;
pub mod collect;
pub mod categorize;
pub mod version;
pub mod render;
pub mod release;
pub mod github;
