# cua_driver_workspace

Session workspaces and trusted exact-window selection for a computer-use
driver, written in Verus.

- `src/` is the verified library: the selection lease registry and its
  admission rules (`selection`), the session workspace registry and its tool
  operations (`workspace`, `registry`, `contract`, `args`), preview routing
  (`pip`), the decisions the macOS adapters take from window-server readings
  (`displays`), the bounds-checked Mach-O symbol lookup (`macho`), and the
  properties that hold across calls (`laws`).
- `tests/` exercises the library on concrete values.
- `app/` is the host glue Verus does not see: JSON arguments and results,
  the asynchronous tool wrapper, process-wide preview hooks, operator setup
  files, and the macOS native adapters.
