# p2p_vpn

A peer-to-peer VPN manager for the terminal. Members of a network share a name and a
password; the key is derived from both, and packets from a tunnel device travel
between the members as encrypted datagrams.

- `src/` is the verified library: key derivation and datagrams (`crypto`), control
  messages (`wire`), the table of members (`peers`), what a running network does with
  packets, datagrams and time (`session`), what is kept between runs (`saved`), opening
  networks (`state`), the menus (`menu`), addresses (`subnet`, `text`) and the choice
  to update (`updater`).
- `app/` is the program around it: the terminal, the tunnel device, the socket, the
  clock, the configuration file and the download of releases.
- `tests/` holds the tests of the library.

The table of members keeps its entries in the order of their first appearance.
