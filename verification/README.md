# bazauti

A WAV reader whose parsing and decoding are verified with Verus.

- `src/audio_parser/errors.rs`: the error types and the messages they carry.
- `src/audio_parser/utils.rs`: NUL-padded text fields, little-endian numbers, format tags
  (`CompressionCode`) and `LIST INFO` tags (`ListInfoId`).
- `src/parser/wav/`: the `fmt ` chunk and the decoders: PCM, Microsoft ADPCM and IMA ADPCM
  (whose data is not decoded).
- `src/audio_parser/wav_parser.rs`: `WAVParser`, which walks the RIFF chunks of a file held
  in memory and decodes its PCM and Microsoft ADPCM samples.
- `src/waveform/plot.rs`: what a waveform is drawn from: which samples a time range
  covers, and the two channels of interleaved stereo.
- `app/`: reading files from disk, drawing waveforms with `plotters`, and listing the audio
  output device with `cpal`.

Malformed input gives an error, never a panic: every function in `src/` is proved free of
panics and overflow, and its contract says which error comes for which input.
