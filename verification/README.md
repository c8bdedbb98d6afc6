# amnezia-xray-admin

Administration of a double-hop Xray VPN (a bridge host in front of a foreign
egress host): users are listed, added and removed, `vless://` URLs and QR
codes are made for them, and a Telegram bot serves the same operations to an
admin.

## Layout

- `src/` is the verified library. Every function there carries a contract
  that Verus proves: the parsing of the server's JSON config and of `xray api`
  replies, the rewriting of the config (enabling the stats API, renaming the
  VLESS inbound), the URL and config rendering, the known-hosts policy for SSH
  host keys, the bot's command and button handling, the screens' state, and
  the multi-step host procedures (snapshots, upgrades, installation,
  deployment). A procedure that has to talk to a host is a state machine: its
  `step` takes what the last command gave and says which command to run next.
- Calls into `serde_json`, `base64`, `qrcode`/`image`, `uuid` and `dirs` sit
  behind small trusted wrappers whose contracts say what those crates promise.
- `app/` is the program around it: argument parsing, SSH and local command
  execution, the Telegram transport, file access. It drives the library's
  state machines and does the I/O they ask for.
- `tests/` runs the library on concrete values.
