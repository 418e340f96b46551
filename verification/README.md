# markturbo

The rules behind a window full of Markdown documents, written and proved in
Verus: what may happen to unsaved text, when a recovery checkpoint is taken and
when its record is retired, and what the window shows.

## Layout

`src/` is the library. It touches no window, file or clock. A function takes the
facts it needs as plain values, changes the workspace's own state, and returns
effects: a list of things for the host to do, in order.

| Module | What it holds |
|---|---|
| `workspace` | The window's state; opening files and folders, tabs, the preview slot |
| `lifecycle`, `destructive` | The interlock: no document is taken away before the decision is durable |
| `retirement`, `scope` | Recovery records that are being retired, and whom they belong to |
| `checkpoint`, `protection`, `pass` | Checkpoints of dirty documents: schedule, attempts, warnings, and what a whole pass comes to |
| `documents`, `startup` | Documents that come, change and go; restoring an earlier session |
| `save_as`, `translate`, `watch`, `search`, `commands`, `settings` | The window's commands, and what it answers to |
| `chrome`, `panels`, `tabs`, `welcome`, `bindings`, `words` | What is drawn, and which keys do what |
| `messages`, `labels`, `harness`, `status`, `text` | Texts |
| `effect` | What the library asks of its host |
| `laws` | What holds of the workspace as a whole |

`app/` is the host's side: it runs effects, drives the walks, reads the disk and
computes the panels' widths. Window toolkit, documents and recovery store stand
behind its `Host` trait.

`tests/` runs the library on concrete values.

## What is proved

Each function's contract says exactly what it changes and what it asks for. The
modules' `law_` functions state what follows for several of them together: for
instance that an action is carried out only once every record it concerns is
being durably retired, that a stale result changes nothing, that a document too
large for the store is not sent again before it is edited, that after a pass
exactly the dirty documents are protected, that a tab opened for good outlives
every preview, or that a status line's timer never clears the line after it.

Two facts about the standard library are taken on trust: that `String::push`
appends a character, and that `char::is_whitespace` holds of exactly the
characters that Unicode calls white space.
