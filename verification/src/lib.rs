pub mod audio_parser;
pub mod parser;
pub mod waveform;
