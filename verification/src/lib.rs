//! Turns the documentation tags of one source file into a Markdown reference page.

pub mod capture;
pub mod markdown;
pub mod parser;
pub mod source;
pub mod tag;
pub mod task;
pub mod text;
pub mod utils;
