# rftmle

A file-synchronisation client. It watches a storage directory, keeps a
manifest that counts the edits of every tracked file, sends changed files to a
server inside raw Ethernet frames, and stores the files the server sends back.
File contents travel encrypted with AES-256-GCM under a common key; files from
the server carry an extra layer under a per-file key that is itself encrypted
to the client's PGP key.

## Layout

- `src/` is the library, verified with Verus:
  - `name_map.rs`: a map from file names to values, with its laws;
  - `manifest.rs`: the manifest and the operations on it;
  - `monitor.rs`: what a file-system event means for the tracked files;
  - `text.rs`, `bytes.rs`, `mac.rs`: names, big-endian integers, MAC addresses;
  - `protocol.rs`: the sync and file-transfer payloads;
  - `ethernet.rs`: Ethernet frames, through `pnet`;
  - `crypto.rs`: AES-256-GCM through `aes-gcm`, nonces through `rand`;
  - `dek.rs`: recovering a file's key through `pgp`;
  - `sync.rs`: the payload of a changed file.
- `app/` is the program: file and network I/O, the directory watcher
  (`notify`), and the manifest's JSON form (`serde_json`).
- `tests/` runs the library on concrete values.

Files received from the server are marked as being received: the monitor
remembers their modification times but does not report them, so they are not
added to the manifest or synced back. A mark lasts until it is removed with
`FileTable::unmark_receiving`; the program never removes one, so a received
file stays unsynced for the life of the monitor.
