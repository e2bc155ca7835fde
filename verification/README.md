# qwen_studio_linux

The rules of a Linux desktop client for Qwen Chat, as a library verified
with Verus.

- `src/` holds the rules: which pages the chat windows may load, the
  profile list (create, rename, update, delete, reorder, categories), the
  paths of the configuration files, the built-in MCP servers and the repair
  and checks of a stored server list, download and export file names, the
  scripts injected into pages, the menu layout and the menu and shortcut
  commands, the GStreamer environment of AppImage builds, update checks,
  update downloads and crash reports.  Each function's contract states its
  result exactly; the few whose result depends on the user's environment
  (the configuration, data and home directories) state it for whatever
  directory the environment gives.  The properties that relate several
  functions are proof functions named `law_*`.
- `app/` is the unverified shell around it: files, the process
  environment, child processes and JSON, with serializable copies of the
  library's types.  It holds no window system: the windows, menus, tray and
  web views that the rules drive are not part of it.
- `tests/` runs the library on concrete values.
