# amplitude

The verified core of Amplitude, an audio mixer for PipeWire: applications
are grouped into channels, channels are sent to a monitor and a stream bus,
and the mixer keeps the PipeWire graph wired accordingly.

Layout:

- `src/` — the library, verified with Verus.
  - `config` — channels and the applications they group.
  - `audio` — the PipeWire thread's bookkeeping (`client`), the audio
    manager's decisions (`manager`), node tracking (`nodes`), the channel
    manager (`channels`), and the mixer window's channel strips
    (`channel`, `channel_manager`, `audio_manager`, `bus`, `backend`).
  - `mixer` — the mixing engine (`session`), its backends and the PipeWire
    backend thread's decisions (`backend::pipewire`).
  - `pipewire` — node records, the node registry and the sink manager.
  - `shell`, `ui` — the state behind the mixer windows and how messages and
    events change it.
  - `strings`, `seqs`, `names` — text helpers, sequence helpers, and a map
    keyed by text.
- `tests/` — tests of the library on concrete values.
- `app/` — the program around the library: configuration files, the
  PipeWire threads, and the engine's event loop.

Levels are held as the bit patterns of their floating-point values; the
program converts at its edge.
