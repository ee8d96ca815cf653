# epd7in5_v2

Verified driver logic for the Waveshare 7.5" e-paper display, revision V2 (800x480 pixels,
UC8179 controller).

- `src/` is the library, verified with Verus. An operation of the driver is a plan: the
  commands, payloads, delays and BUSY waits that the panel has to see, and the bookkeeping
  between them. `Operation` hands out a plan one bus action at a time and is told how each went.
- `app/` performs the actions on `embedded-hal` pins and SPI devices, blocking or
  asynchronously, and holds the refresh smoke test for a connected panel. `app/esp32s3_refresh.rs`
  is the root of that test's firmware, a bare-metal binary of its own.
- `tests/` runs the library on mocked pins and on a panel in software.

Where to read:

| module | what it holds |
| --- | --- |
| `protocol` | the driver's bookkeeping and the steps of every operation |
| `driver` | `Epd7in5`, which plans the operations |
| `operation` | the walk through a plan, action by action |
| `panel` | a model of the controller: RAMs, window, waveform, image on the glass |
| `laws`, `run`, `history` | what is proved of operations, of every run of one, and of every sequence of them |
| `smoke` | images, stages and checks of the smoke test |

Plan an operation and carry it out before the next one is planned: its steps depend on the
bookkeeping at that time. After a failed or cancelled operation, discard the driver and reset the
panel with `new` before using it again: the controller's RAM and waveform registers may no longer
match the bookkeeping.
