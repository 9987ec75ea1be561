//! A small verified text-search library: a query is compiled into a
//! case-insensitive matcher, each line of a file is checked for match
//! spans, and a directory scan aggregates per-file results while
//! isolating per-file failures.

pub mod config;
pub mod format;
pub mod matcher;
pub mod search;
