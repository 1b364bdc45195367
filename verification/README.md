# qsonaut

N3FJP logging protocols and modem-adapter metadata for QSONaut, verified with
Verus.

- `src/` is the verified library: the N3FJP API command catalog, command
  encoding and packet decoding (`api`), the station-network message format
  and its UTF-16 framing (`network`), the UDP broadcast payloads (`udp`),
  connection settings (`config`), and the pure decisions of the modem
  adapters (`adapters`: WSJT-family modes and message packing, SSTV VIS codes
  and header bits, RADE and CW metadata). Every public function carries a
  contract over mathematical models of its inputs and results.
- `network::roundtrip` proves that written messages read back as themselves,
  from the message body through the UTF-16 frame and the streaming decoder.
- `app/` holds what the library leaves to its caller: TCP and UDP sockets,
  pacing and clocks, persisted settings with serde, and the floating-point
  signal paths that call `komitoto-sstv`, `image` and `mfsk-core`.
- `tests/` exercises the library on concrete inputs.
