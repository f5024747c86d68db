pub mod annotate;
pub mod parse;
pub mod pipeline;
pub mod render;
pub mod text;
pub mod value;
