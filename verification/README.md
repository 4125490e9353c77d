# ffmpeg

Verified models of FFmpeg audio frames and codec flags.

- `src/util/format/sample.rs`: sample formats, their raw `AVSampleFormat` codes, sizes and
  packing.
- `src/util/channel_layout.rs`: channel layouts as sets of known channel bits, and the
  channel count of a raw layout.
- `src/util/frame/audio.rs`: an audio frame as plain values (raw fields and the bytes of
  its planes): getters and setters, buffer allocation, plane access, copying, the text
  that describes a frame, and the `Sample` types that read a plane.
- `src/codec/flag.rs`: codec flags.
- `app/lib.rs`: reading a libav `AVFrame` through its raw pointer into a frame.
