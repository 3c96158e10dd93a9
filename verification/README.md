# csi-webserver

A host-side server for ESP32 boards that run the `esp-csi-cli-rs` firmware. It
discovers boards over USB, verifies their firmware, forwards configuration commands,
streams channel state information (CSI) frames to WebSocket clients, and writes
session files in Parquet.

## Layout

- `src/` is the library: every decision the server takes, with its contract, proved by
  Verus. It does no I/O, but for reading the clock where a frame or a session is
  stamped.
- `app/` is the executable: command line, serial ports, HTTP and WebSocket service,
  session files. It tells the library what happened and does what the library says.
- `tests/` runs the library on concrete values, with the real postcard, Arrow and
  Parquet crates behind it.

## What is proved

- Command lines: every request body is turned into exactly the line the firmware
  expects, or refused with exactly the stated message (`models`).
- The firmware gate: nothing is sent to a device that is not connected and verified;
  the cached configuration changes only when a command was sent, and never holds a
  password (`routes::config`).
- Sessions: a running collection is not started twice, a stop undoes a start, a reset
  ends the session and blocks commands until the firmware is verified again
  (`routes::control`).
- Frames: they reach clients and session files only while a collection runs, verbatim
  for clients, decoded for files, and what follows a command is not mistaken for a
  frame (`serial::connection`).
- Decoding: the frame that a board sends for a packet decodes to that packet (`csi`).
- Session files: every batch fits the schema, so Arrow accepts it (`parquet_sink`,
  `table`); an open file is that of the current session, and the end of a session or
  of a link hands it over to be finished (`serial::connection`, `serial::link`).
- Hotplug: ids stay unique, a board that moves to another port is followed, and one
  that is missing is removed by the third scan and not before (`serial::supervisor`).

What the library takes from the postcard, Arrow and chrono crates and from the standard
library without proof is marked `external_body` or `assume_specification`, each with a
comment that says what is claimed.

## Running

```
csi-webserver [--interface 0.0.0.0] [--port 3000] [--baud-rate 115200]
              [--device ALIAS=PORT_OR_MAC]... [--scan-interval-ms 2000]
csi-webserver flash --port /dev/ttyACM0 --chip c6
```

| Variable | Description |
|----------|-------------|
| `CSI_SERIAL_PORT` | Pin one serial port |
| `CSI_BAUD_RATE` | Serial baud rate |
| `CSI_FIRMWARE_DIR` | Directory of merged firmware images |
| `RUST_LOG` | Tracing filter |

## Output modes

| Mode | WebSocket | Session file |
|------|-----------|--------------|
| `stream` (default) | yes | no |
| `dump` | no | yes |
| `both` | yes | yes |
