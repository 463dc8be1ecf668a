# niri_quickshell

The backend of a niri desktop shell, split in two:

- `src/` is the verified library. It holds the decisions and the text that
  the backend produces: the colour theme and its store, the colour files written for
  fuzzel, ghostty and niri, the list of selectable themes, the file-watcher's test
  for the theme file, the state sent to the frontend (workspaces stably sorted by
  index), the parsing of `wpctl`, `pactl` and battery output, the frontend's commands,
  the remote's datagram, socket and configuration paths, and the per-connection loop
  state. Every function has a contract; cross-function laws are the `law_*` proof
  functions.
- `app/` is the program around it: sockets, D-Bus, child processes, the file
  watcher, file I/O, TOML/JSON parsing into the library's types, flatbuffers
  encoding, and the floating-point volume conversion.

`tests/` runs the library on concrete inputs, comparing with std where the library
states std's behaviour (trimming, integer parsing, path joining, sorting).
