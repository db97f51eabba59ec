# motodiag

A motorcycle ECU diagnostics stack whose protocol core is proved correct with
Verus.

- `src/` is the verified library: KWP2000 framing, fast and 5-baud init and
  sessions over K-line; ISO-TP segmentation and UDS sessions over CAN; the
  SLCAN and ELM327 adapter line codecs and transports; wire tracing and
  replay; the ECU definition schema, its safety rules (only diagnostic
  services, never memory or flash access) and registry; the diagnostic
  session with its write-access interlocks; protocol discovery; trace
  analysis; the connection troubleshooter's decisions; and simulated K-line
  and CAN ECUs.
- `tests/` exercises the library from outside.
- `app/` is the command-line program around it: serial ports, files, TOML and
  JSON, threads, and everything measured in floating-point engineering units
  (scalings, reference ranges, the vacuum gauge).

The library holds raw integers where the definitions hold scalings: a
channel reading is the raw value from the ECU, and the program scales it.
Transports the operating system provides (a serial port, a CAN adapter's
port, a trace file) reach the library through small traits that promise
nothing; the verified transports built on them keep the contracts.
