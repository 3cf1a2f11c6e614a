# ocha

A conversation loop for language models that is neutral between providers. The
model asks for commands in plain text, one line of the form
`!!!OCHA_RUN_CMD{...}`, and there is a single point at which a command is approved
or denied before it runs.

The library under `src/` decides; the program under `app/` acts. The library takes
events and says what is to be done next, and its contracts say exactly what. It is
verified with Verus.

| module | what it holds |
|---|---|
| `text`, `json` | texts as sequences of characters, and the JSON text of values |
| `command`, `tool` | the command protocol, requests and results |
| `reminders`, `log`, `repl` | reminders around a prompt, the log, the terminal |
| `backend`, `stream`, `config` | what each provider is sent, how its answers are read, how it is set up |
| `turn`, `run_turn`, `turn_laws` | the turn loop, and what holds of every run of it |
| `serve` | sessions over HTTP, server-sent events, remote approval, and their laws |

Proof functions whose names start with `law_` state what holds of the library as a
whole: nothing runs that was not approved, a denial is fed back to the model, a
command is decided about once, histories only grow, sessions do not interfere.

What is trusted: the text of `serde_json` values, the decoding of UTF-8,
`String::push`, and the clock of `chrono`. Each such item says in its doc comment
what it claims.

The server binds the loopback interface only and has no authentication. Commands
wait for a decision for `OCHA_APPROVAL_TIMEOUT_SECS` seconds, ten minutes by
default, and are then denied; a session with `"approval_mode": "auto"` asks nobody.
