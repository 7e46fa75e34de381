# ollamatop

A terminal monitor for the models of a local Ollama server: it lists the
installed models, refreshes the selected model's statistics every two seconds,
and shows context usage, a token history sparkline and a token breakdown.

- `src/` is the verified library: the application state and its key handling
  (`app`), the statistics records (`model::stats`), the server URLs and the
  decoding of the model list (`ollama::client`, over the JSON documents of
  `ollama::json`), and the breakdown shown by the stats panel
  (`ui::components::ollama_stats`).
- `app/` is the program around it: terminal setup, the HTTP client, JSON
  parsing, drawing with ratatui, and the event and refresh loops.
- `tests/` exercises the library on concrete values.
