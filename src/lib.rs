//! Tokenizer stage of an HTML parser: turns a sequence of Unicode scalar
//! values into start tags, end tags, characters and an end-of-input marker.
pub mod attribute;
pub mod text;
pub mod token;
pub mod tokenizer;
pub mod laws;

pub use attribute::Attribute;
pub use token::{HtmlToken, State};
pub use tokenizer::HtmlTokenizer;
