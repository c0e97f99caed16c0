//! A local music search library: normalized audio metadata records, an
//! n-gram-indexed in-memory search index, and a lenient query layer.

pub mod doc;
pub mod ext;
pub mod index;
pub mod record;
pub mod text;
pub mod ui;
