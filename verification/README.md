# m_ftracert

A method tracer for Android applications built on Frida: the user picks a
process and a set of class patterns, the tracer injects an agent script that
hooks every method of the matching classes, and the events the agent sends
back are shown as they arrive.

## Layout

- `src/` — the verified library (Verus):
  - `text.rs`: characters, searching, lines, words and decimal numbers, each
    specified over `Seq<char>`;
  - `models.rs`: the data types and their views;
  - `json.rs`: the JSON model and the `serde_json` calls;
  - `event_parser.rs`: from a line Frida prints to a trace event;
  - `script_generator.rs`: the agent script for a set of rules;
  - `processes.rs`: decoding and reading the `frida-ps` listing;
  - `frida_manager.rs`: locating the Frida tools and their command lines;
  - `config_storage.rs`: the saved configuration and the migration of old rules;
  - `commands.rs`: what each user command decides, and the tracer's state.
- `tests/` — tests of the library on concrete inputs.
- `app/` — the desktop shell (Tauri commands, files, child processes).
