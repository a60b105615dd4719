# brstm_speed_tool

A verified library, with a small program around it, for changing the playback
speed of BRSTM streams (the looping ADPCM music format of Wii games) and for
previewing their loop points.

Layout:

- `src/pcm.rs`: interleaving and de-interleaving of channel buffers, slicing,
  concatenation, and the two segments of a loop preview.
- `src/le_bytes.rs`: little-endian integers and raw `s16le` samples.
- `src/wav.rs`: 16-bit PCM WAV files.
- `src/atempo.rs`: the sample exchange with FFmpeg's `atempo` filter.
- `src/brstm_format.rs`: the plain header values and block layout of a BRSTM
  file, and the checks on them under which the `brstm` crate runs without
  failing.
- `src/brstm_io.rs`: the calls into the `brstm` crate (trusted wrappers), each
  reader state kept with the bytes it was read from and each encoded stream
  with the PCM it was encoded from.
- `src/brstm_stream.rs`: decoding, rendering and encoding BRSTM files, with
  contracts over the crate's named results.
- `src/cli.rs`: the command line.
- `src/report.rs`: the JSON line printed for `--loop-info`.
- `app/main.rs`: the program: files, FFmpeg/ffplay processes, threads, and the
  floating-point steps (time-stretch factors, simple resampling).

Every function in `src/` carries a contract proved by Verus; the calls into the
`brstm` crate are trusted wrappers whose contracts state what that crate's
source shows. Their preconditions leave out the inputs on which the crate
would panic: files whose 32-bit offset arithmetic would overflow in the reader,
block layouts that exceed the loaded data, PCM lengths at which the encoder
indexes past a channel, and sizes at which the serialiser's 32-bit offsets
would overflow. For the decoder's 32-bit prediction sum the library uses a
sufficient bound on the predictor coefficients, which also refuses some files
(silent ones with large coefficients, for example) that the crate would decode.
The library checks the file conditions before the calls and reports an error
where a file fails them; callers of the encoder check theirs with
`encoder_supports`.
