pub use crate::audio_parser::errors;
pub use crate::audio_parser::utils;
pub mod wav;
