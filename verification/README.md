# windows_registry_search

A terminal program that searches the Windows registry for keys and values whose
path, name or data contains one of a list of search terms, in lower or upper
case alike.

`src/` is the engine, verified with Verus:

- `search`: which keys and values match, what is reported of them, and how
  workers share the keys still to be visited; `search_laws` and `pool` state what
  holds of every search, among other things that a search ends only when it is
  complete.
- `root`, `string_set`, `editor`, `selection`: the root keys, the search terms,
  the editor for them and the main view; `selection_laws` states what holds of
  the main view.
- `events`: what each key press does and which window stands over the main view;
  `event_laws` states what holds of every key press.
- `display`, `text`: lines of coloured text, and strings.

`app/` reads the registry (on Windows) and the keyboard, draws the interface with
`tui`, and runs the workers on `tokio`. Nothing in the interface starts a search:
the run key starts a run that only takes its time.
