# supervisor

The decision logic of a Wayland desktop shell's supervisor, written in Rust and verified with Verus,
and the program around it.

The supervisor starts and restarts the renderer, owns the platform connections a config asks for
(`mantle.<name>`), answers `mantle set`, `toggle` and `call`, and is the only one that unlocks the
session.

## Layout

- `src/` is the library. Everything in it works on plain values: what was read goes in, what is to be
  done comes out. Every function states in its contract what it returns, and the laws that relate
  several functions stand beside them as public proof functions.
- `app/` is the program: argument handling, files, sockets, D-Bus, Wayland, processes and PAM. It
  is kept thin: it reads, hands over, and carries out.
- `tests/` runs the library on concrete values.

## The library's modules

| Module | Decides |
| :--- | :--- |
| `cli` | What a command line asks for, and how a bad one is answered |
| `instance`, `log` | Which running shell a command reaches; what of a log is shown |
| `control_client` | What an answer of the shell's means to the one who asked |
| `generation` | The renderer's environment, how it ended, and when restarting it must wait |
| `pam_worker` | The exchange with the process that asks PAM, and with polkit's helper |
| `process` | The children a config started, and their lines |
| `action` | Which arguments of a command count |
| `capabilities` | One module for each `mantle.<name>`, and `lifecycle` for which of them run |
| `json`, `path`, `text`, `table`, `time` | The values the others are stated over |

What is taken from `serde_json` and from the standard library's paths and text decoding is called
behind small functions whose contracts are believed: they are in `json`, `path`, `text`, `log` and
`process::lines`, each with the function it calls and what is claimed of it.
