# desktop_pet

A Live2D desktop pet and its chat agent, with the logic written and proved
in Verus.

- `src/` — the verified library.
  - `protocol`, `json`, `ipc`: the control protocol (validation, responses,
    request text, the command-line client's requests, screening of raw
    messages on the pipe).
  - `pointer`, `behavior`, `presentation`, `status`, `character`, `config`,
    `autostart`, `rng`: the pet — input events, action scheduling, speech
    bubbles, status queries, characters, settings.
  - `conversation`, `prompt`, `provider`, `session`, `input_window`,
    `memory`, `memory_view`, `mapper`, `speech`, `tts`, `piper`, `audio`:
    the agent — conversation history, prompts, providers,
    one-request-at-a-time sessions, the input window's keys and menus,
    long-term memory, speech text, speech scheduling, WAV audio.
  - `text`: the string operations the rest is specified with.
- `tests/` — tests on concrete values.
- `app/` — the command line around the library: the pipe client, the
  console chat, settings files, the SQLite memory store, HTTP calls and
  audio.
