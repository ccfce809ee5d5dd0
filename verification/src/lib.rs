//! Unify: joins text files into one document according to layered configuration
//! and gitignore-style patterns.
pub mod cli;
pub mod config;
pub mod sizes;
pub mod text;
pub mod presets;
pub mod paths;
pub mod patterns;
pub mod render;
pub mod walk;
