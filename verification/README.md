# omm

The control core of the oh-my-music real-time audio engine, written in Verus. The
functions in `src/` are verified against their contracts, with two exceptions: the three
calls into ringbuf (`src/command.rs`) have contracts that Verus takes as given, and the
queue's `new_command_channel` and `CommandQueue::enqueue` state nothing, because what the
queue holds depends on the thread at its other end.

- `schedule`, `rt_scheduler`: validation of scheduled actions (the planned-action lead
  time), and the real-time command scheduler that keeps pending actions in due order and
  dispatches them from the render path within a per-block budget.
- `source_timeline`, `channel`, `runtime`: timeline source instances and their validation,
  a channel's transport state (enable, fading stop, playback status), admission of new
  sources, command routing and the runtime's control state.
- `command`: the lock-free command queue between control and render threads.
- `features`, `understanding`: window planning for feature analysis, and the integer side
  of offline audio understanding (duration guard, section boundaries, beat grid, evidence
  citations).
- `sources`, `pcm`: resampler chunking, the Glicol block buffer, PCM track layouts and
  sample decoding.
- `engine`: command-line parsing, help text and output-device selection.

`tests/` exercises the library; `app/` is the engine executable, holding the signal
processing, device I/O and JSON output around the library.
