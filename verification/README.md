# agent_pc

The core of a desktop AI coding agent, written in Verus and verified.

- `src/` is the library: command safety screening, extraction of tool calls
  from model replies, the reports of every tool (read, write, edit, glob,
  grep, bash, code search, web search and fetch, git worktrees, sub-agents),
  the symbol index, the streamed chat reply (event-stream lines and their
  assembly), the system prompt and message list of a turn, sessions,
  settings, skills, the file sandbox and MCP request routing. Every public
  function states its result in its contract; the laws the library keeps
  (a blocked command never runs, the sandbox admits exactly the paths below
  its root, saved settings load back unchanged, the reply is the
  concatenation of its streamed tokens, ...) are proof functions.
- `tests/` runs the library on concrete values.
- `app/` is the runtime around it: files, processes, HTTP, the system
  keyring and JSON.
