//! Reading of HWPX word-processor documents into a document model, and
//! rendering of that model as Markdown or HTML text.

pub mod document;
pub mod encoding;
pub mod error;
pub mod number;
pub mod parser;
pub mod text;
pub mod viewer;
