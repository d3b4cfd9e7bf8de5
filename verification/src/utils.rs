pub mod text;
pub mod strinput;
