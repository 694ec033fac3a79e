//! The parsing and execution core of a command-line shell.

pub mod elem_script;
pub mod element_list;
pub mod elements;
pub mod feeder;
