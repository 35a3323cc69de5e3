pub mod querys;
pub mod statements;
