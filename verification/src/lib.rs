pub mod errors;
pub mod game;
pub mod outside;
pub mod ids;
pub mod utils;
pub mod controller;
