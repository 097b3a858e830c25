# FlowShare core

The core of FlowShare native transfers: what two devices do to find a direct path to each other,
to authorize one transfer, and to move a file in authenticated ranges that can be taken up again
after a stop. The core is written in Rust and verified with Verus: functions state in their
contracts what they return and change, and no verified function panics. What the random generator
of the system draws is left open, and what is made of it is stated for every value of it.

Paths are written as Unix or as Windows writes them; the functions that read or build one take the
style as an argument.

## Layout

- `src/` is the verified core. It reads no clock, socket or file: times, addresses, received
  bytes and the outcome of what the host did come in as values, and what is to be done next goes
  out as a value.
- `app/` is the process around the core: sockets, files, the runtime, the services that a host
  application brings, and the engine that other languages call.
- `tests/` runs the core on concrete values.

## The core, module by module

| Modules | What they hold |
| --- | --- |
| `protocol`, `lifecycle`, `bitmap`, `framing`, `block_hash` | range headers, the ledger of received ranges, resume bindings, the states of a transfer, digests of blocks |
| `authorization`, `authorization_delivery`, `secure_protocol`, `crypto`, `encoding` | invitations and who may claim them, the packages that carry them, digests and tags |
| `candidates`, `path_selection`, `hole_punch`, `port_mapping`, `connectivity`, `connectivity_diagnostics`, `quinn_connectivity`, `signaling` | candidates and pairs, authenticated probes, sessions and what they report |
| `cross_device`, `transfer_setup`, `received_files`, `direct_run`, `failures` | outgoing and incoming transfers from their creation to their end, names and places of received files, the phases of a run |
| `file_transfer`, `engine`, `adapters`, `config` | ranges, blocks, counters and checkpoints of a file on its way |
| `cross_platform`, `ffi`, `device_protocol`, `platform_handles` | the surface that other platforms see |
| `address`, `arith`, `bytes`, `ordering`, `paths`, `registry`, `text` | addresses, numbers, texts, paths and maps that the rest is built on |

Public proof functions named `law_*` state what holds across functions: what is written can be
read back, what was altered is refused, what was claimed once is not claimed again, and so on.

A few functions call other crates (`sha2`, `hmac`, `subtle`, `zeroize`, `rand_core`, `base64`,
`uuid`). What the proofs take for granted of them is stated at those functions, in `crypto`,
`encoding` and `text`.
