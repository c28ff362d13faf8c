# AI-native control layer

The decision core of a local desktop assistant for Linux. A request goes to a
language model on the same machine, which answers with an intent. The core decides
what becomes of it: read-only tools run at once, changes of a setting wait for the
consent of the user, and everything else is refused or asked back.

## Layout

- `src/` holds the decisions, each with a contract that Verus proves.
  - `text`, `json`, `confidence`, `paths`: texts, JSON values, scores and file paths.
  - `intent`, `planner`, `settings`, `session`, `gate`: what an intent may do, which
    settings may be changed, and the consent that a change waits for.
  - `model`, `conversation`: the exchange with the model, one event at a time.
  - `scope`, `search`, `walk`, `files`: which folders and files the file tools see.
  - `network`, `logs`, `system`: the other tools, from what the system reports.
  - `command`, `execution`: the commands that are run, and what a tool reports.
  - `safety`: what holds of every command.
- `app/` is the program around it: the window, the network, files, processes and the
  clock.
- `tests/` runs the core on concrete values.

## Settings

| Variable | Default | Meaning |
|---|---|---|
| `OLLAMA_MODEL` | detected | the model that is asked; else the first installed one of the Qwen3 family, else the first installed one, else `qwen3:4b-instruct` |
| `OLLAMA_TIMEOUT_MS` | `30000` | the time for an answer, from 30000 to 600000 |
| `OLLAMA_TIMEOUT_SECONDS` | | the same in seconds, where the one above is not set |

## What is taken on trust

- In `src/text.rs`, the contracts of four functions of the standard library:
  `String::push`, `str::to_lowercase`, `String::from_utf8_lossy` and
  `std::str::from_utf8`.
- In `src/json.rs`, those of `as_bool` and `as_u64` of `serde_json::Value`, of a
  value that `serde_json::from_str` reads.
