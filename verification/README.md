# virtual_file

A virtual file server and its tools: a client mode that serves the files of a
shared directory over websockets, a daemon mode that stores the files clients
send, a fingerprint of a directory, and a malware scan of scripts and images.

The library under `src/` is verified with Verus:

- `commun_utils`: read strategies chosen from a file's length, chunked
  buffering, directory walks, pattern scoring of file contents, labelled
  enums.
- `fs_handler`: the sandboxed handler's readers, headers, payload
  collections, directory resolution and scan target selection.
- `virtual_fs`: protocol negotiation, file-name cleaning and storage plans,
  the cache predicator, the cache and payload collections with their
  indexes, and the dispatch of a shared directory's files.
- `snapshot`, `text`: the directory fingerprint, decimal and hexadecimal
  text.
- `third_party`: the calls into `regex`, `serde_json`, `blake3` and std's
  paths, each behind a trusted item with its contract.

`app/` holds the program around it: argument and environment handling, the
websocket server and daemon, disk reads, the WebAssembly runtime and the
terminal output.
