# Provider hub

After a change of the model provider, old sessions of a local agent may no longer be listed: the
provider that a session names in its rollout file, in the state database and in the catalog no
longer agree. This project finds such sessions, plans what it takes to list them again under the
current provider, backs up what it is going to change, writes, verifies, and can take everything
back.

## Layout

- `src/` is the library. It decides: which sessions are touched, which statements are run under
  which conditions, what a backup holds and when it may be removed, how an interrupted repair is
  settled, which process may be closed. It reads and writes nothing itself. Its functions have
  contracts that Verus proves.
- `app/` is the program around it: files, databases, processes, the command line, and a line-based
  host for a desktop window (`serve`).
- `tests/` runs the library on concrete values.

## Reading the library

Contracts speak of the ghost twin of each record (`ThreadRowView` for `ThreadRow` and so on), which
`deep_view()` gives. Long operations are machines: a function takes the state and what happened, and
gives the next state and what is to be done (`repair`, `restore`, `closing`, `cleaning`). The functions whose
names begin with `law_` state what holds of several functions together, such as that a repair is
idempotent, that a backup that is needed is never removed, or that what was changed from outside
survives an undo.

What other crates and the standard library compute is behind functions marked `external_body`, whose
contracts are taken as given: reading TOML and JSON, quoting text for JSON and for messages, reading
and writing RFC 3339 times, SHA-256.
