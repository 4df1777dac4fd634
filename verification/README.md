# DeepSeek Harness Desktop

A desktop shell around DeepSeek Harness (DSH): a tray icon, a window, and the DSH process behind it.

`src/` is the decision core, written and verified in Verus. It runs no process, opens no file and
sends no request. Where the shell alternates between deciding and acting, the core hands out the
next step and is told what the step brought.

| Module | Subject |
|--------|---------|
| `token` | the address with a token in the output of DSH, and the latest one captured |
| `startup` | starting the process, waiting for the service, the course of a whole start |
| `auth` | whether a service asks for a token, and what becomes of an external instance |
| `port` | who holds the port, and waiting until it is free |
| `pnpm` | which pnpm command runs DSH |
| `command` | the commands that the shell runs |
| `config` | the settings, closing the window, finding the DSH directory |
| `output`, `log`, `paths` | kept output, log entries, and where files stand |
| `page`, `tray` | scripts, notices, the tooltip and the menu |
| `text`, `platform` | text primitives, and what depends on the system |

What is trusted rather than proved: the match that the `regex` crate finds for the address pattern
(`token`), the directory that `dirs` reports (`paths`), the clock (`log`), and the decoding of bytes
that need not be UTF-8 (`port`).

`app/` is the program: it carries out the steps with Tauri, tokio, reqwest and rfd. `tests/` runs the
core, with the real outside crates behind it.
