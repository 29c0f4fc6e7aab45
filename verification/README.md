# Omapaste

Clipboard history for Omarchy: a daemon remembers what you copy and shows a
strip of cards at the bottom of the screen.

The library in `src/` holds the rules of the program, each function with a
contract proved by Verus:

- `store`: the history in SQLite. Rows are read and written by a few
  primitive statements; search, order, expiry, deduplication and pruning are
  decided in verified code over a model of the table.
- `history`: the orders of the bar and of pruning, and prune plans.
- `laws`: what holds across operations (the cap, expiry, read-back, dedup).
- `clip`, `keep`, `hash`, `text`: clips and their labels, keep presets,
  content hashes, text helpers.
- `clipboard`, `paste`, `config`, `theme`, `paths`, `cli`: what the watcher
  keeps, which keys paste where, the settings file, the theme and its
  stylesheet, where files live, the command line.
- `keys`, `editing`, `bar`: what each key does on the bar, in the search field
  and in the rename field, and what the cards show.

`app/` is the program around it: GTK, processes, files and the environment.
