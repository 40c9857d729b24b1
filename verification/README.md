# mo_worker

The worker of a small coding-agent harness: one process per session that runs
the agent loop of a language model with file, shell and subagent tools.

`src/` is the verified core. It holds everything that the worker decides:

- `driver` is the run of a session as a machine that takes events and gives
  orders, `agent` holds its steps, `history` rebuilds the model context from the
  session journal, and `reply` assembles streamed replies; `history_laws` and
  `agent_laws` state what holds of them as a whole.
- `prompt`, `skills` and `config` build the system prompt, find the skills and
  bring the configuration together; `prompt_laws` states how the depth of a
  session shows in its prompt.
- `tools` holds the file sandbox (`fs`), the file-access policy (`permission`),
  the dispatch (`execute`), the run of a decided file tool (`file_run`), the
  registry (`definitions`) and one module per tool.
- `paths`, `text`, `output`, `chat`, `journal`, `session` and `ids` are what the
  others stand on.

The core does no input or output. A function that depends on the outside takes
what the outside said as an argument: a `PathLookup` is what the file system
said about a path, a `Poll` what polling a process gave. What it decides comes
back as a value: an event to journal, a `FileAction` to perform, a `ToolTask` to
carry out.

`app/` does the input and output: files, processes, the model endpoint, the
journal and the session rows. `tests/` runs the core on concrete values, with a
directory tree held in memory where one is needed.
