pub mod ugcore;
