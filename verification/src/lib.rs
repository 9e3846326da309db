//! Extensibility core of a module bundler: ordered plugin hook dispatch with
//! first-match, cumulative and broadcast semantics, source-map accumulation
//! across transform steps, and a final minify stage that composes its
//! generated map with everything accumulated before it.
pub mod driver;
pub mod laws;
pub mod minify;
pub mod plugin;
pub mod sourcemap;
pub mod types;
