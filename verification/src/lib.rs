pub mod braille;
pub mod image_data;
pub mod matrix;
pub mod parse;
pub mod render;
pub mod rule;
