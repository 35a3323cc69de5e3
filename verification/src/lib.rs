//! Query-string handling, SQL statement assembly and row shaping for a small
//! notes/tags/categories REST service, specified and proved with Verus.
pub mod json;
pub mod laws;
pub mod migrations;
pub mod module;
pub mod text;
pub mod utils;
