# mint

The logic of the mint mod-integration tooling for Deep Rock Galactic, written
in Verus and verified: every public function in `src/` carries a contract that Verus
proves, and the laws the library keeps are public proof functions.

## Layout

- `src/wire.rs`: little-endian encoding and decoding of integers.
- `src/crc.rs`: CRC-32/BZIP2 defined bit by bit; `src/pak.rs` proves its
  table-driven checksum equal to it.
- `src/pak.rs`: the editor file-server protocol: frames with magic and CRC,
  strings, messages, the file list, replies, and glob matching of paths.
- `src/kismet.rs`: the reader of Kismet bytecode; `src/kismet/unique.rs` proves
  that the bytecode of a well-formed expression determines it, and
  `src/kismet/disassembly.rs` lays a script out as a listing whose offsets
  account for every byte.
- `src/listing.rs`: the debugger's listings: nested lines, labelled and
  numbered.
- `src/debugger.rs`: how the debug adapter answers requests, when the
  interpreter pauses, and the ids of function listings.
- `src/ue/`: models of the engine's containers: `TArray`, `FString`, `FName`
  hashing, and `TMap` lookup through its hash chains.
- `src/nav.rs`: lookup of terrain cells in the game's cell store.
- `src/installation.rs`: recognising an installation from its files' names.
- `src/integration.rs`: merging the files of mod paks into one: which pak a
  file is taken from, which later copies differ, and the soft-class paths of
  the mods' init assets.
- `src/saves.rs`, `src/server_list.rs`: save-slot paths and the `[MODDED] `
  server-name prefix.
- `src/update.rs`: the release record.
- `tests/`: tests of the library.
- `app/`: the runtime around the library: the file-server client over TCP,
  file providers, the debug-adapter server, reading mod paks for the merge,
  installation lookup on disk, and the release check.
