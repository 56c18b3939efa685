# Realtime translation

The verified core of a desktop application that translates speech in both
directions of a call: the microphone is transcribed, translated and spoken into
a virtual microphone; incoming audio is transcribed, translated and shown as
subtitles.

`src/` is a Verus library. It holds the decisions: when transcript text is
flushed to translation, what the messages of the speech services mean, what a
track does with an event, what the user interface shows, how samples are
buffered for resampling and playback, how settings are layered. It does no
input or output: each part takes plain values and says what is to be done.

| Module | What it decides |
|--------|-----------------|
| `transcript` | the transcript buffer and its flush rules |
| `deepgram` | the transcription service: parameters, messages, session |
| `deepl` | the translation service: parameters, requests, context window |
| `elevenlabs` | the speech service: parameters, messages, session |
| `track` | one track: settings, events, translation of live partials |
| `state` | the user interface: subtitles, errors, settings, session status |
| `config` | settings from defaults, file and environment; paths |
| `session_log`, `calendar` | log lines, file names, UTC dates |
| `nodes`, `capture`, `playback` | audio nodes, formats, buffers |
| `ring`, `resample`, `pcm` | samples on their way to playback and transcription |
| `cli` | command lines and output of the diagnostic tools |
| `events`, `clock`, `json`, `text` | shared types and helpers |

What is trusted is marked `external_body` or `assume_specification`, with a
comment that says what is claimed: reading and quoting JSON, decoding base64,
Unicode uppercase, appending a character to a string, and the ring buffer
between threads.

`app/` is the program around the library: sockets, HTTP, PipeWire, files, the
window, and the floating-point arithmetic on samples. `tests/` runs the library
on concrete values.
