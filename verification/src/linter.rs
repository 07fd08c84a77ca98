//! Helpers shared with the linter: node text and source ranges.

pub mod lib;
