# firmware_common

Building blocks shared by the flight computer firmware, written in Verus.
The functions in `src/` state what they do in `requires`/`ensures` clauses,
and Verus proves them. What is trusted rather than proved: the few wrappers
that call `bitvec` (bit copies, loads, stores and single bits) and `crc`
(the CRC-8/SMBUS checksum), whose contracts restate those crates' behaviour,
and the contracts of the traits that users implement (`Crc`, `VLPPhy`);
a few trait methods, such as a console program's id, promise nothing.

- `bits`, `delta_logger2::bitvec_serialize_traits`, `delta_logger2::bitslice_io`:
  bit-level writers and readers over byte buffers (through `bitvec`).
- `delta_factory`, `delta_logger::delta_factory`: delta encoders and decoders.
- `delta_logger::delta_logger`, `delta_logger2::delta_logger`: two log
  formats of readings behind prefix-code headers, with proofs that what the
  logger writes reads back.
- `delta_logger::ring`, `ring_logger`: the bookkeeping of rings of log files
  and the framing of archived entries.
- `console`: console programs, the RPC frame checksum (CRC-8/SMBUS through
  `crc`), and the answers of the file server.
- `can_bus`, `config_structs`, `device_mode`, `pvlp`, `indicator`,
  `debounced_signal`, `buffer`, `io_traits`: message formats, settings and
  small state machines.

`app/` holds what talks to hardware or works on floating point: the async
drivers of the log formats over `embedded-io-async`, the debounce runner,
the moving average and the LoRa modulation parameters.
