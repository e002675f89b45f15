# hbbs

The decision logic of a rendezvous server for remote-desktop peers, written
in Verus and proved against its contracts.

Layout:

- `src/` is the verified library. Each module states its behaviour over
  plain values and spec functions:
  - `addr`: socket addresses as integers, IPv4 normalisation, LAN masks;
  - `rendezvous`: punch-hole answers and routing, peer and key
    registration, server settings;
  - `blocker`: per-IP rate limits and the IP history of peers;
  - `command`: the administration commands on those records;
  - `report`: the text the server answers those commands with;
  - `online`: the online bitmap;
  - `keys`: the server's signing key and signatures;
  - `common`, `text`, `table`, `datatime_util`, `sync_db`, `database`:
    settings, text helpers, an ordered map, time arithmetic, the queue of
    database writes and the pool settings.
- `tests/` runs the library on concrete values.
- `app/` is the server around the library: sockets, message encoding, the
  database, the clock, argument parsing and signals. It depends on the
  server's common crate for the wire protocol.
