# rayfish

The verified core of the Rayfish mesh daemon's data plane and control
helpers.

- `src/` — the library. Every function is proved against its contract
  except six trusted wrappers around outside crates, whose contracts are
  taken on trust and documented above each: `bytes_mut_with_capacity`,
  `bytes_mut_extend` and `bytes_mut_freeze` (`bytes`), `public_key_of_secret`
  (`iroh`), `guess_mime_type` (`mime_guess`) and `format_size` (`humansize`).
  - `checksum`: RFC 1624 incremental checksum update, with its round-trip and
    recompute laws.
  - `datagram`: the network-handle tag on mesh datagrams (`bytes` buffers).
  - `ssh_nat`: the userspace SSH port NAT and its set-once cell.
  - `inbound`, `outbound`, `reader`: the admission decisions for packets
    arriving from peers, leaving for peers (including the flush of an
    on-demand backlog), and reaching the TUN device, and the peer reader's
    per-datagram pipeline, down to the bytes written to the TUN.
  - `dialing`: the forwarding loop's per-packet decision and the bounded set
    of on-demand dials in flight.
  - `close`: peer close reasons and codes.
  - `authz`: IPC caller authorization.
  - `roster`, `rename`: roster projections, identity resolution, roles and
    the rename plan.
  - `settings`: the confirmation lines of the settings commands.
  - `files`: the MIME type and human-readable size of offered files
    (`mime_guess`, `humansize`).
- `app/` — process glue: the process-wide NAT cell, type conversions and
  the calls that hand the library what the TUN, the peer table and the
  firewall report.
- `tests/` — tests run against the compiled library.
