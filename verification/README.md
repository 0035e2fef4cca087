# qq_maid_core

The core of a chat assistant for QQ: long-term memories, a searchable index over Markdown
notes, feeds, todos with reminders, the routing of messages to tools, and what is shown of
what the tools answer.

`src/` is the library. Its executable code is verified with Verus against the contracts that
stand beside it, and each directory states the laws that span its functions as public proof
functions.

- `text`, `json`, `labels`, `markdown`, `error`, `push`: what the rest is built from.
- `outside`: the calls into other crates, with what is claimed of them.
- `memory`: records and who may read and change them, the background pass that archives
  duplicates, changes that wait for the user, and the tool that saves.
- `knowledge`: notes are cut into chunks, indexed, searched, and handed on as evidence.
- `rss`: feeds, what is shown of their items, and the tools that list and manage them.
- `todo`: cards, edits, reminders and what a session remembers.
- `respond`: which messages go to the tools.
- `tools`: what tools are offered, and how their results are presented.
- `ops`: commands that operators may run, and how their configuration is checked.

`app/` holds what the library does not: the SQLite databases, files, timers, and the services
that fetch, translate, search and embed. Scores are floating-point numbers there; the library
orders them by integers. Formatters of other packages hand their texts in as lookup tables.

`tests/` runs the library.
