//! The verified core of a drone flight planner: command types, their
//! names and the command table, the expression grammar with its lexical
//! layer, variable substitution over a small regular-expression engine,
//! obstacle file helpers and the plain state of the editor's panels.
use vstd::prelude::*;

pub mod codegen;
pub mod color;
pub mod commands;
pub mod golden;
pub mod obstacles;
pub mod sim;
pub mod text;
pub mod ui;

verus! {

} // verus!
