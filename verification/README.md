# AirPods backend for GNOME, verified with Verus

The backend's logic lives in `src/` and is verified with Verus:

- `protocol`: the AirPods control protocol (AAP) packets and BLE proximity frames,
  address resolution and battery decryption (AES through the `aes` crate).
- `model`: the published status and how each report updates it.
- `settings`: the saved preferences, their validation and the migration from the
  legacy Qt settings file.
- `media`, `playback`, `pipewire`: ear detection, the media controller's
  decisions, and the queries on the PipeWire graph.
- `bluetooth`: which BlueZ device is the AirPods, reconnection back-off and
  discovery decisions.
- `daemon`: what each Bluetooth event and control command changes, and what has to
  be sent or saved.
- `control`: the command socket's framing and the command-line client's checks.

`app/` holds the program around it: D-Bus and L2CAP I/O, the command socket,
audio commands, the JSON status and settings files. `tests/` runs the library.

## Behaviour where the sources disagree

The control command for one-bud ANC (`onebud:on`, `onebud:off`) is refused
with "One-bud ANC is unavailable for this model" on models without the
feature. On the others it needs a packet that the protocol module does not
define, so it is refused with "One-bud ANC control is not implemented" and
changes nothing. The Bluetooth worker reports no reconnection attempts
or failures, so the status counters `reconnect_attempts_total` and
`reconnect_failures_total` stay 0. The test transport (`--test-transport`) is
not built.
