# codex_local

The verified core of working with a locally served model.

- `src/` is the library, checked by Verus.
  - `client`, `cli`, `http`, `json`, `config`, `error`: what a Lemonade client
    asks for, and what it makes of answers and of program runs.
  - `startup`, `ready`: bringing the server up and the model to disk, as state
    machines from events to actions.
  - `registry`: the thread stores that tests put in place of remote ones.
  - `area`, `style`, `mention`, `canvas`, `popup`: the rows of the mention popup
    and how they are drawn.
  - `text`: strings as sequences of characters.
- `app/` does the I/O around it: requests, programs, the clock, the process-wide
  registry, the terminal.
- `tests/` runs the library on concrete values.

Properties that span several functions are public proof functions whose names
begin with `law_`. What is taken on trust of `reqwest`, `serde_json`, `ratatui`
and `std` is said above each `external_body` function.
