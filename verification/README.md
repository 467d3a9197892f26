# vpn

A point-to-site VPN over QUIC. The rules that server and client share are a library whose
contracts Verus proves; the program around it does the reading, sending and waiting.

- `src/` is the library.
  - `net`, `time`, `text`, `io_error`: plain values.
  - `ipam`, `auth`, `user_store`, `config`: what the server hands out, whom it lets in, and what
    it is told by its configuration.
  - `msgx`, `quic_link`, `data`, `tun_setup`, `shutdown`: framing, keepalive, closing, forwarding
    of packets, TLS settings, and how tasks end.
  - `sysprobe`: what the machine reports of itself, and when.
  - `client`: how a client gets in, sets up its tunnel, and ends.
- `app/` is the program: arguments, files, sockets, the tunnel's device, the runtime.
- `tests/` runs the library on given values.

Loops that wait are split: the library says what to do next after each event, and the program
does it. What the library has from other crates stands behind functions whose doc comments say
what is taken on trust.
