pub mod conflisp;
pub mod kfs;
pub mod tapirlisp;
pub mod ugen;
pub mod units;
mod text;
