# keyforge

Input remapping daemon for evdev game controllers: it grabs a physical
controller, mirrors it as a uinput device, and runs every event through a
pipeline of Lua plugins before writing it to the virtual device.

- `src/` is the verified library:
  - `text` — the std text functions the parser relies on, with their contracts;
  - `ioctl` — encoding of evdev/uinput request numbers;
  - `abi` — input records and event codes as plain values;
  - `settings` — the plugin settings map;
  - `config` — the `key = value` configuration and the command line;
  - `device` — device state and how the virtual device mirrors the physical one;
  - `pipeline` — events, plugin context, processing steps and the ordered pipeline;
  - `dispatch` — what is done with each event read, scheduled key releases,
    readiness reports and reads.
- `app/` is the program: system calls, the Lua plugin host, and the event loop
  that performs what the library decides.
- `tests/` exercise the library on concrete values.
