//! The parts that a word is made of.

pub mod command_substitution;
