# synproxy

The packet side of a SYN proxy, verified with Verus.

A frame that reaches the proxy is dropped, forwarded to the host that it is meant for, or, if it asks
to open a TCP connection, answered in the host's place with a SYN cookie.

- `src/` is the library. `ingress` decides about frames, `reply` writes answers, `patch` writes them
  over one that is in place, `template` writes them by way of a template, `arp` asks for addresses,
  `dump` describes frames, and `laws` holds what is true of all of these together. `ethernet`,
  `ipv4`, `tcp` and `arp` describe the headers as sequences of bytes; they are read and written
  through `pnet`, whose accessors are trusted to do what the contracts in these four modules say.
  `dump` takes the text of a layer from `pnet` as it comes.
- `services` names what the library asks of its surroundings: the routing table, the SYN cookies and
  the checksums. No contract assumes anything of the replies; a law that does says so.
- `app/` puts the library on the types of `pnet` and `std`.
- `tests/` runs the library.
