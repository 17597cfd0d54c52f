# cr_ui

The verified core of a comic library manager's GTK front end: the reader's
page geometry and navigation, its key bindings and command actions, the
navigator's list tree, and the library session's job and scan state.

- `src/` is the library, written in Verus: every function carries a
  contract that Verus proves, and the `law_*` proof functions state what
  holds across calls (a list move keeps the tree a tree, a stored name or
  color reads back, the page strip has no gaps, and so on).
- `tests/` runs the library on concrete values.
- `app/` is the unverified shell: the floating-point display math, GDK key
  events, the nested navigator tree and the per-thread session state.
