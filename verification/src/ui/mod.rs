//! The user-interface side: platforms, benchmarks and the theme.

pub mod benchmark;
pub mod platform;
pub mod theme;
pub mod web;
