# OpenAudio

OpenAudio publishes and receives multichannel audio over a local network: from
and to ordinary audio devices, ASIO drivers and browsers.

The crate `openaudio` under `src/` is the part of it that decides: which session
may start and why not, what a worker is handed, how a session ends, what a
preset holds and what loading it makes of the application, how channels are
selected and routed, what the meters hold, what the user reads, and what the
command-line receiver does with its arguments and packets.  It is written in
Verus, performs no I/O and states in contracts what each function returns or
changes.  Laws that relate several functions stand beside them as public proof
functions.

| Module | Subject |
| --- | --- |
| `app`, `saving` | the state of the desktop application; presets saved and loaded |
| `control` | running state, identities and workers of sessions |
| `publish`, `subscribe`, `asio_subscribe` | the kinds of sessions |
| `asio_locks` | exclusive use of ASIO drivers |
| `browser`, `diagnostics` | the browser gateway; synthetic publishers |
| `signal_monitor`, `level` | meters; levels and volumes as bit patterns |
| `devices`, `channels`, `preset`, `load` | devices and streams, channels, preset contents, network load |
| `receiver` | the command-line receiver |
| `messages`, `ui_shell`, `theme`, `text`, `rounding`, `doubles` | texts, pages, colours, and what they are made of |

`app/` is the program around it: windows, dialogs, files, threads, sockets and
the audio engine.  `tests/` holds the tests of the library.
