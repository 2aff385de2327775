# encode

The logic of the EnCode Python editor and its launcher, verified with Verus.

- `src/` is the library. `general_data` holds the records of plugins and projects,
  `launcher` the decisions of the launcher (a new project's record, the check of
  plugin dependencies), `plugins` which plugin libraries the editor loads,
  `app_type` how the program runs, `theme` the colours and recoloured icons,
  `editor` the choice of tab and the cursor label, `commands` the menu, action
  names and shortcuts, `diagnostics`, `diag_status` and `report` what the editor
  makes of a pyright run, and `text` the integer and string conversions they share.
- `tests/` runs the library on concrete values.
- `app/` is the GTK program around it: windows and dialogs, the SQLite record
  store, the plugins (the standard ones compiled in, others loaded as libraries),
  and running pyright.
