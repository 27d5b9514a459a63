# crab2d

The verified core of the Crab2D editor and runtime, written in Verus.

- `src/` is the library: path and text handling, asset lookup and the
  texture cache, tile collision text, the editor theme palette, the status
  log, the workspace layout, the asset browser and scene tree filters, the
  components the inspector can still attach, the
  editor's input decisions (shortcuts, dialogs, viewport hit order, tile
  painting) and the runtime's decisions (key events, player defaults,
  script reloading and start events). Every function carries a contract
  that Verus proves, and the `law_*` proof functions state the properties
  that tie several operations together.
- `tests/` runs the library on concrete values.
- `app/` is the runtime program around the library: the window, the engine,
  file access and drawing.
