# pbh-core

The core of a peer ban helper for BitTorrent downloaders, verified with Verus: its domain model, its
ban list, its settings, the client of the BTN network, the databases of places, NAT traversal and
the front end of its script rules.

- `src/` is the library. Every function states what it returns or changes, and Verus proves it.
  - `text`, `textmap`, `textset`, `wire`, `net`, `iputil`: texts, maps and sets of texts, bytes on
    the wire, IP addresses and networks.
  - `model`, `module`, `banlist`, `i18n`, `defaults`, `config`: peers and torrents, verdicts, bans,
    messages, and the settings with the modules that they call for.
  - `btn_*`: the client of the BTN network. `btn_codec`, `btn_pow` and `btn_json` hold its codes,
    `btn_ability` and `btn_transport` its handshake, `btn_exchange` its requests, `btn_schedule`,
    `btn_submit`, `btn_rounds` and `btn_sync` what it does and when.
  - `geo_data`, `division`, `geoip`, `geoip_db`, `geoip_update`: what is known of addresses, and
    the databases that it comes from.
  - `auto_stun`, `auto_stun_probe`, `auto_stun_forwarder`: NAT mappings, the NAT type, and tunnels.
  - `avscript`, `script`: scripts of rules and what they see.
- `tests/` runs the library.
- `app/` is what surrounds it: files, sockets, threads, HTTP, the script engine, and documents in
  YAML and JSON.

Outside crates are called where they belong into the logic: MaxMind databases (`maxminddb`), XZ
(`lzma-rs`), gzip (`flate2`), digests (`sha2`, `crc32fast`), networks (`ipnet`), YAML and JSON
(`serde_yaml`, `serde_json`). What is believed of each call stands in the contract above it.

Public proof functions state laws that hold of several functions together, such as
`btn_codec::base64_round_trips` or `btn_rounds::ban_rounds_join`.
