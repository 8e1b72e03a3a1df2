use vstd::prelude::*;

pub mod text;
pub mod numbers;
pub mod position;
pub mod name_map;
pub mod debug_symbols;
pub mod call_syntax;
pub mod docs;
pub mod doctest;
pub mod diagnostics;
pub mod constraints;
pub mod eval_lexer;
pub mod hush;
pub mod call_check;
pub mod stepping;
pub mod cli_rules;
pub mod package_path;
pub mod types;
pub mod interfaces;
pub mod inherited;
pub mod ast;
pub mod checked;
pub mod body_spec;
pub mod body_check;
pub mod file_spec;
pub mod func_bodies;
pub mod checker;
pub mod collect;
pub mod sorting;
pub mod closures;
