pub mod errors;
pub mod utils;
pub mod wav_parser;
