# openasr-core

The planning and dispatch core of a local speech recogniser, written and verified in Verus.

- `src/longform/` cuts a long recording into slices that the executor can hold: fixed,
  energy-guided and voice-activity windows, packed timelines that leave silence out, and
  the automatic planner that scores them all and takes the best.
- `src/models/` describes execution requests, the decoder state they promise, the
  registry that dispatches them to executors, and the jobs, slots, engine routing and
  serial decode of the Whisper server.
- `app/` turns seconds and decibels into the samples and levels that the library plans
  in, and gives its errors the traits of `std`.

The library works in whole samples. Loudness enters through closures that answer for
ranges of a recording, so every plan is verified for every possible answer.

What the planner promises, beyond the contract of each function, stands in proof functions
whose names begin with `law_`: no slice crosses the executor's ceiling, windows cover what
they were cut from, packing keeps all detected speech, and the automatic planner drops
nothing audible.
