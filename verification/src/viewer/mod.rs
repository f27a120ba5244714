//! Rendering of the document model as text.

pub mod html;
pub mod markdown;
pub mod segmenter;
