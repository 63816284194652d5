# http_tui

A terminal HTTP client (in the spirit of Postman): requests are kept in YAML
collection files in a directory tree, edited in a three-panel terminal
interface (collections, request editor, response viewer) and sent
asynchronously.

Layout:

- `src/` — the verified library, checked with Verus: the application state
  and every key and mouse handler as a state transition with a contract
  (`handler.rs`, `nav.rs`, `dialogs.rs`, `typing.rs`, `mouse.rs`), the
  collection tree (`storage.rs`, `tree.rs`), environment substitution
  (`models.rs`), text and path helpers, what the screen shows
  (`screen.rs`, `json_view.rs`), and the laws that tie the operations
  together (`laws.rs`).
- `app/` — the program around it: terminal setup and drawing (ratatui,
  crossterm), reading and writing files (serde_yaml, walkdir), sending
  requests (reqwest, tokio) and the clipboard (arboard).
- `tests/` — tests of the library on concrete values.
