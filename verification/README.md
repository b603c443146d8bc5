# patchbay_server

The rules of the Patchbay server, written in Verus: each function states in
its contract what it returns, and Verus proves the body against it.

- `filter/`: swim lane filters: the editable draft, its conversion to and from
  conditions, parsing, summaries, and which items a condition matches.
- `display/`: what the web pages show: board lanes and their order, labels,
  claims, live event scopes, links, form layouts and tool output metadata.
- `items/`: work item updates, relationships, swim lanes, personalities and the
  labels a new item starts with.
- `projects/`: project names and paths, settings and their stored form,
  writable roots, memory and system prompt changes, git status.
- `sessions.rs`: the registry of running agent processes and their output.
- `rich_text.rs`, `text.rs`: rich text editor values, and text helpers.
- `storage.rs`, `workspace.rs`, `server.rs`, `logging.rs`, `clock.rs`: paths,
  workspace commands, the local API address, log filters and the clock.

`app/` holds the program around the library: argument and environment
handling, processes, the shared session registry and JSON reading.
