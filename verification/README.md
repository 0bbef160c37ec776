# cloud_vmm

Parts of a virtual machine monitor, verified with Verus.

- `src/arch`: CPU profiles. A profile is generated from descriptions of CPUID data and
  from what a host reports, and adjusts what other hosts report, so that guests can
  move between them.
- `src/devices`: the i8042 keyboard and mouse controller, the reset that it asks for, and
  the scan codes of keys.
- `src/display`: the framebuffer that firmware sets up in guest memory, the messages of
  the RFB protocol, and the VNC server as state machines that ask for I/O and take the
  answers.
- `src/bytes.rs`: numbers as bytes, most significant byte first.
- `app`: what performs the I/O: sockets, threads, event descriptors, JSON.
- `tests`: tests of the library.

The contracts are stated over sequences, integers and the views of the types. Proof
functions whose names start with `law_` state what holds across functions. What the
library takes on trust is in two files: `src/display/guest_memory.rs` (reads of guest
memory through `vm-memory`) and `src/arch/range_specs.rs` (accessors of
`RangeInclusive`).
