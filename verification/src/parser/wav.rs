pub mod base;
pub mod ima_adpcm;
pub mod ms_adpcm;
pub mod pcm;

pub use base::{AudioData, FmtMetadata, WAVCodec, WaveParserContext};
