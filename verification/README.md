# lfm25-audio-onnx

A streaming node for the LFM2.5 Audio models, with its logic verified by Verus.

- `src/` is the verified library. It decides what input a node takes, runs a
  turn as a machine that moves between text and audio, lays out what every
  model graph is given and what becomes of its output, samples tokens, frames
  audio, and checks model bundles. Every function carries a contract; what
  holds of whole turns, sessions and bundles is stated and proved as public
  proof functions.
- `app/` runs the library as a loadable plugin: the ONNX graphs, the Fourier
  transforms, the arithmetic on samples, files, and the host's interface.
- `tests/` runs the library on concrete values.

Numbers of single precision reach the library as bit patterns where they are
compared (`scalar`), and are carried unseen everywhere else. Arithmetic on them
is handed in as closures, of which the contracts claim nothing but that their
results are the ones used.

Two outside crates are called from the library, in `tokenizer` and `json`:
`tokenizers` and `serde_json`. Their functions are wrapped one by one, and each
wrapper says what it takes for granted. A tokenizer is made of its file, and
called, only where it can carry out what the file says; what that takes is laid
down in `tokenizer_file` and `soundness`, and anything else is refused with an
error.

In `asr` mode a turn gives out text, in `tts` mode audio alone, in `interleaved`
mode both.
