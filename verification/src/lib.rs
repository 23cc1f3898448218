//! An interpreter for Dr Script, a small scripting language: a lexer, a
//! parser into a syntax tree, and an interpreter that runs the tree against
//! surroundings that print, read input and load modules.

pub mod positions;
pub mod token;
pub mod text;
pub mod values;
pub mod errors;
pub mod lexer;
pub mod ast;
pub mod parse_spec;
pub mod parser;
pub mod report;
pub mod intparse;
pub mod table;
pub mod io;
pub mod interp_spec;
pub mod builtins;
pub mod frame;
pub mod interpreter;
pub mod program;
pub mod error_handler;
pub mod basic_parser;
pub mod laws;
pub mod syntax_laws;
