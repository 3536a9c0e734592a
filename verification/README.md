# bifrost

A two-way Ethernet bridge between two Linux TAP interfaces (`custom0` at
192.168.75.1 and `custom1` at 192.168.76.1), with the packet logic verified
in Verus.

- `src/` is the verified library:
  - `utils`: reading 2, 4 or 6 bytes at an offset;
  - `interface_state`: Ethernet II frames and ARP messages (reading and
    writing, with round-trip laws), and `respond_to_packet`, which decides
    what the bridge does with a frame: readdress and forward IPv4, answer
    every well-formed ARP message (requests and replies alike), ignore the
    rest;
  - `rfc_791`: the IPv4 header checksum, with the laws that a checksummed
    header verifies and that recomputing it changes nothing;
  - `rfc_793`: the TCP checksum over pseudo-header and segment, with the
    same two laws, applied to forwarded TCP datagrams;
  - `network_interface`: filling in the `ifreq` buffer used to set up a
    TAP interface.
- `app/` is the program: the TAP setup through `ioctl`, reading with
  `poll`, and the two threads that move frames between the interfaces.
- `tests/` runs the library on concrete frames and headers.
