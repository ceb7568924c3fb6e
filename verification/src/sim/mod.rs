pub mod controlflow;
pub mod expr;
pub mod grammar;
pub mod regex;
pub mod runtime;
