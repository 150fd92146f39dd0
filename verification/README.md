# audio_bridge

Always-on microphone capture and streaming playback for voice applications, with
the rules of the bridge between the audio devices and the application verified by
[Verus](https://github.com/verus-lang/verus).

- **Capture.** The callback of the input device pushes samples into a bounded
  queue. A collector drains it every 20 ms into a rolling pre-roll window. When a
  recording starts, the window goes to the consumer's channel first and live audio
  follows without a gap or an overlap.
- **Playback.** A producer pushes samples, the callback of the output device pulls
  them. Playback can be paused, resumed and cleared; the end of a turn is detected
  when the queue has run empty; progress is known sentence by sentence.
- **Session.** Starting and stopping the device thread is a state machine that is
  told what has happened and says what is to be done next.

## Layout

| Path | Contents |
|---|---|
| `src/` | The verified library. `*_laws.rs` and `playback_runs.rs` state what holds across several calls. |
| `src/ring.rs`, `src/channel.rs` | The trusted boundary: `ringbuf` and `tokio::sync::mpsc`. |
| `tests/` | Tests of the library. |
| `app/` | The Tauri plugin around it: devices, threads, locks, clock, commands, and the floating-point band analyzer. |

Samples are `f32` values held as bit patterns in `u32`: the library moves them and
never computes with them.
