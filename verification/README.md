# vox

The logic of a two-peer LAN voice pipe, written in Verus: each side captures from a
local device, encodes, and sends plain UDP to the other, while it decodes and plays
what the other sends.

- `src/` is the library. Everything in it is proved: the wire format (`packet`), the
  capture framing and numbering (`send`, `resample`, `audio`), loss handling and the
  adaptive jitter buffer (`receive`, `jitter`), starting and counting (`engine`),
  configuration (`cli`, `config`, `device`, `session`, `logging`) and what the
  dashboard shows (`tui`, `graph`, `text`). `loopback` and `smoke` serve the two
  bring-up programs. `ring` holds the contracts that the lock-free sample ring
  (`ringbuf`) is taken to meet; nothing else is trusted.
- `app/` is the program around it: devices, sockets, threads, the codec, the sample
  rate converter, the terminal. It does the floating-point arithmetic.
- `tests/` run the library.

A sample crosses the library as the raw bits of its floating-point value. Time in the
jitter estimate is counted in ticks of 2^-32 of 1/48 ns, of which both a nanosecond
and a 48 kHz sample are a whole number.
