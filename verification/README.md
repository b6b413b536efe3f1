# segotep_digital

Driver for the 7-segment displays of Segotep Ice Moon / Digital series AIO
coolers, as a Verus-verified library (`src/`) and a thin program around it
(`app/`).

- `src/protocol.rs`: the 34-byte HID output report and its layout laws.
- `src/daemon.rs`: the driver loop as a state machine (connect, sample, send,
  wait, blank on stop), with laws over whole runs.
- `src/config.rs`: hexadecimal USB ids and the Windows service command line.
- `src/service.rs`: the steps of installing the Windows service (create or
  update, restart, start).
- `src/device.rs`: the capability input report.
- `src/monitor/`: CPU power from energy counters, CPU load from `/proc/stat`,
  the choice of the hwmon temperature input, temperatures and the per-core
  average clock from sysfs text, NVML and PawnIO conversions, the order in
  which PawnIO modules are loaded, the LDGT sensor text, and the merge of all
  sources into one snapshot.
- `src/text.rs`: the character-level string semantics the parsers rely on
  (trimming, splitting, integer grammar).
- `app/`: command line, logging, signals, USB HID I/O through `hidapi`,
  sysfs and sysinfo reads, and the Windows APIs.
