//! A static-site build library: pages written as markup may reference
//! reusable components, data-driven templates and embedded markdown blocks;
//! the resolution engine expands those references recursively, with a
//! history-based cycle guard, and the build orchestrator runs the engine
//! over a whole page tree, collecting diagnostics without aborting
//! unrelated work.

pub mod engine;
pub mod error;
pub mod frontmatter;
pub mod json;
pub mod katex_assets;
pub mod model;
pub mod pages;
pub mod paths;
pub mod render;
pub mod scan;
pub mod store;
pub mod text;
pub mod utils;
