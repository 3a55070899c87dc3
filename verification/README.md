# cpu_sim

The host side of a RISC-V CPU simulator: the system buses, memory and
memory-mapped devices a simulated CPU talks to, the loading of programs,
and the analysis of waveform dumps. The library in `src/` is written in
Verus; every function carries a contract that Verus proves.

## Layout

- `src/memory.rs`: sparse byte-addressable memory, little-endian words and
  halfwords, with the read-after-write laws.
- `src/memory_map.rs`, `src/address_map.rs`: address constants, range
  checks, and the routing of an address through a map of disjoint ranges.
- `src/bus_device.rs`: the `BusDevice` interface and the DRAM-checked
  memory context handed to devices.
- `src/bus.rs`: system bus with DRAM, the simulator control device,
  registered external devices and attached FIFOs the host feeds and
  drains; the RTL peripheral window is not routed. A ghost log records
  every call made on an external device, with what it was handed and
  what it answered, so the contracts can speak of those calls.
- `src/fifo_bus.rs`: system bus that also maps the FIFO, with the LR/SC
  reservation.
- Devices: `src/dram.rs`, `src/sim_control.rs`, `src/fifo.rs`,
  `src/dma.rs`, `src/video.rs`, `src/audio.rs`.
- `src/hung_detector.rs`: stuck-PC and long-instruction detection.
- `src/elf_loader.rs`: loading the LOAD segments of an ELF executable
  (parsed by the `elf` crate).
- `src/vcd_analyzer.rs`: statistics of a VCD dump (parsed by the `vcd`
  crate).
- `src/host_access.rs`: region writes and dumps, image sizes, and numbers
  given as text.
- `src/simulation.rs`: the decisions of a simulation run, of the boot
  sequence, of the hung check and of delayed memory responses.
- `app/`: the command-line tool (file I/O, PNG output, reports).
- `tests/`: scenarios run against the compiled library.
