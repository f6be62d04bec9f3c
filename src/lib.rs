//! Extraction of embeddable text chunks from source files.
pub mod chunks;
pub mod extractor;
pub mod laws;
pub mod text;

pub use chunks::{
    chunks_from_matches, classify, whole_file_document, Capture, CaptureKind, CaptureRoles,
    Document, ExtractionError,
};
pub use extractor::{CodeContextRetriever, EmbeddingConfig, Grammar, LanguageDescriptor};
pub use text::is_entire_file_type;
