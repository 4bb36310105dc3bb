# echo_ffmpeg_player

The decisions of an audio player, verified with Verus: loading and replacing sources,
playing, pausing, seeking, looping, fading, moving the output to another device,
impulse responses, and the speed of playback.

- `src/` is the library. Its functions change the state of a player and leave commands
  for the host to carry out. Nothing in it touches threads, devices or files.
  - `player`, `seek`, `output`, `spatial`, `fade`, `controls`: what the host may ask for.
  - `shared`: the queue of samples and the requests that the threads of a source share.
  - `decoder`: what the decoding thread does next.
  - `tempo`: changing the speed by overlap-add, sample by sample.
  - `events`, `settings`: what the player tells its host, and what can be set.
  - `float_bits`, `float_ops`: floating-point numbers by their bit patterns, and their
    arithmetic.
  - `text`, `json`: white space and JSON values.
- `tests/` runs the library on concrete values.
- `app/` is the Node addon around it: threads, callbacks, FFmpeg, and what needs cosines and
  clock durations. Devices, outputs, network sources and effects come from the `Platform`
  that is installed.
