# macro_gen

An automated digital IC macro generator: it characterizes the devices of a
PDK with ngspice, driven in-process, and sizes a reference inverter against a
target switching threshold.

- `src/` is the verified library (Verus): validation of the configuration,
  the text of the characterization deck, the order of the requests that
  extract device parameters, the commands sent to the simulator and the
  outcome of each call, the capture of the simulator's output, the parser
  of its `showmod` text, the device-parameter record and the symbol table
  of extracted parameters, and the offsets of the sizing sweep.
- `app/` is the command-line program around it: argument handling, reading
  the TOML configuration, the FFI to libngspice, file output, logging, and
  everything that computes with floating-point quantities (sizes, voltages,
  the choice of the best sweep candidate).
- `tests/` exercises the library on concrete values.
