# Fridge monitor

A screen for a refrigerated cabinet: the live picture of the camera inside, the
state of the machine, a log and a list of alarms.

`src/` is a library of what is decided and computed, verified with Verus. Three
computations in floating point are not in it: how long a number of timestamp
units lasts, and the rounded labels of processor load and network traffic. They
are in `app/`.

The modules of the library:

- `text`: searching in strings, prefixes, decimal numbers
- `status`: labels of the status line, network totals, the filter on the
  diagnostics stream
- `clock`: how a time is written
- `events`: log entries and alarms
- `pixels`: pixel buffers and pictures of the UI toolkit, and what they hold
- `picture`: decoding of snapshots
- `frame`: video frames, from the decoder's bytes to pixels on screen
- `player`: what is opened, started and played, and where each packet goes
- `player::video`: which packets are decoded and when a frame is shown

What the library takes from other crates stands behind functions whose
contracts are trusted. Each says what it relies on.

`app/` is the program around it: the window, threads, network, video decoding
and readings of the machine.
