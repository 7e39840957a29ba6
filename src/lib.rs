//! A small expression and statement language: tokens are parsed into a
//! syntax tree by recursive descent, and the tree is run by a tree-walking
//! interpreter over a flat variable store.
use vstd::prelude::*;

pub mod token;
pub mod error;
pub mod text;
pub mod ast;
pub mod environment;
pub mod interpreter;
pub mod parser;
pub mod reparse;
