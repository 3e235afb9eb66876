# speakiput

Voice dictation: a daemon records from the microphone, transcribes the recording locally,
lets a language model correct it where that is wanted, and types the text into the window
that had the focus. Clients talk to the daemon over a Unix socket.

The library under `src/` holds the rules of that work, and Verus proves that each function
keeps the contract written above it. `app/` is the program around it: sockets, files,
the microphone, the desktop and the serialisation of messages.

## Layout

- `contract`: messages, settings, envelopes and frames of the protocol.
- `state`: the states of a dictation and the moves between them.
- `service`: the daemon's answers to requests, its events, and the course of a dictation.
- `audio`: speech and silence, splitting a stream into phrases, choosing a device, WAVE files.
- `asr`: preparing phrases and cleaning transcripts.
- `llm`, `insertion`: requests to a language model, and what may be inserted of its replies.
- `storage`: revisions of the settings, pages of the history, rules for credentials.
- `client`, `server`: what a connection accepts, and where a message goes.
- `daemon`, `migrate`: the daemon's own decisions, and taking over whisrs settings.
- `linux`, `macos`, `platform`: the desktops.
- `gui`: what the user interface shows and sends.
- `testing`: a scripted backend and the checks of the protocol's conformance.
- `json`: JSON documents as plain values.
- `text`, `split`, `decimal`, `paths`, `arith`: the parts the others share.

Energies and levels are held as the bits of their floating-point numbers; of numbers that
are not negative, the bits have the order of the numbers.

## Where the library meets other crates

Random identifiers, the clock, regular expressions, the JSON documents that the library
looks into itself, the host of an address and the WAVE writer come from `uuid`, `chrono`, `regex`,
`serde_json`, `reqwest` and `hound`. Each such call stands behind one function whose doc
comment says what is taken on trust.

## Programs

- `speakiput`: the daemon.
- `speakiput --toggle-recording`: starts or stops a recording in the running daemon.
- `speakiput gui [commands on standard input]`: shows the daemon's state; takes `record`,
  `save`, `reload`, `clear`, `diagnostics`, `list` and `quit`.
- `speakiput migrate-whisrs [config.toml]`: takes over settings.
- `speakiput conformance`: runs the scripted dictation.

Capture needs the system's audio library and recognition a Whisper build, so each is
compiled in only where it is asked for:
`RUSTFLAGS="--cfg native_capture --cfg local_whisper"`, with `--cfg vulkan` or `--cfg metal`
for acceleration.

On macOS the program also needs `arboard`, `enigo`, `macos-accessibility-client` and `rdev`;
they build on that system alone and are added to `Cargo.toml` there.
