//! A module bundler for Lua projects: it resolves the graph of `require`
//! calls that starts at an entry module, rewrites the calls into string
//! keys, and joins every reachable module into one script with a line map.

pub mod text;
pub mod path;
pub mod source_map;
pub mod module;
pub mod memo;
pub mod json;
pub mod emit;
pub mod lua;
pub mod rewrite;
pub mod minify;
pub mod config;
pub mod error;
pub mod queue;
pub mod engine;
pub mod bundle;
pub mod intake;
pub mod protocol;
pub mod decode;
pub mod encode;
