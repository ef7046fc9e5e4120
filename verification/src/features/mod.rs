//! Optional metrics of particular kinds of programs.

pub mod terminal;
