# llmman

A manager for locally run language models: it resolves the names of models, keeps
them in a local store, runs inference engines (`llama-server`, `vllm`) for them, and
answers the Ollama, OpenAI and Anthropic APIs in front of those engines.

- `src/` is the library: the rules, parsers and state machines, each with a contract
  that Verus proves. `src/shortnames_laws.rs`, `src/cmd/readline_laws.rs` and the
  proof functions named `law_...` elsewhere state what holds across functions.
- `app/` is the program around it: arguments, files, processes, the terminal and HTTP.
- `tests/` runs the library on concrete values.

The library reads and writes nothing by itself. Where files, processes or connections
come in between, a state machine says what is to be done next and is told what came of
it: `cmd::serve::load` for loading a model, `cmd::readline` and `cmd::run` for the
prompt, `daemon` for starting and stopping the server and for following a transfer.

JSON documents are `serde_json` values; contracts speak of the tree that such a value
holds (`json::Json`). What `serde_json`, `chrono`, `sha2`, `hex`, `tar` and the standard
library do behind those contracts is stated at the wrappers in `archive`, `clock`,
`daemon`, `json` and `text`, and is believed, not proved.
