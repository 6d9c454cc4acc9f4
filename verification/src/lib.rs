//! Orchestration core for a platform optical-character-recognition engine:
//! language-tag resolution, pixel-buffer validation, direction-aware line
//! assembly, and the error taxonomy shared by every binding.

pub mod assemble;
pub mod buffer;
pub mod chars;
pub mod error;
pub mod languages;
pub mod resolve;

pub use assemble::stringify_lines;
pub use buffer::PixelBuffer;
pub use languages::languages_to_json;
pub use resolve::resolve_language_tag;

pub use error::get_error_code;
pub use error::DocrError;
pub use error::DocrResult;
