# v2board_wireguard

The decisions of a Linux WireGuard backend daemon for v2board nodes, verified
with Verus, and the daemon around them.

- `src/` is the library: which peers an interface should hold, how it is set up
  and reconciled, what the panel is told of traffic and of who is online, the
  firewall script and the traffic-control commands, how a snapshot is applied
  step by step and what the daemon does next. Every function states its result
  over sequences of characters and plain records; the modules whose names end in
  `_laws` prove what holds of several of them together.
- `tests/` runs the library on concrete values.
- `app/` is the daemon: it reads the settings, talks to the panel over HTTP,
  keeps the last good snapshot in SQLite, talks to the kernel and runs `nft` and
  `tc`, as the library tells it.

What the library takes on trust is marked `external_body` or
`assume_specification`: the reading of keys and address masks by
`defguard_wireguard_rs`, the replacing of tokens by `regex`, and a few functions
of std that have no specification of their own.
