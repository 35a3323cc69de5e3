pub mod models;
pub mod controller;
