# vhs-gui

A desktop program for digitizing VHS tapes. It shows the live picture of a capture device, runs
the capture script, lists what was captured, and runs the scripts that denoise, deinterlace,
encode and upscale it.

- `src/` is the library, verified with Verus: the rules that the program follows, except those on
  fractions of seconds (time-based progress, the expected number of segments), which need floating
  point. It does no input or output. Times are clock readings in nanoseconds, paths are bytes,
  directories are listings that the caller made.
- `app/` is the program around it: the window (egui), the player (libmpv), the capture device,
  processes and files; and the floating-point arithmetic.
- `tests/` runs the library on concrete values.

| Module | What it holds |
|---|---|
| `text`, `number`, `path`, `order` | characters, decimal numbers, Unix paths, sorting |
| `config` | where the capture tree, its scripts and its logs live |
| `library` | the list of videos, in sections, newest first |
| `v4l2` | the hardware controls of the capture device |
| `settings`, `persist` | the upscale settings, and what of them is saved |
| `ffmpeg`, `launch` | progress fields of ffmpeg's output; how a script is started |
| `capture` | the capture job and its stop timer |
| `pipeline` | a processing job: its start, its progress, its pause and its end |
| `mpv_view` | what is played, and what is written over the picture |
| `panels` | the state of the monitor view and of the upscale view |
| `app` | which view is shown, and when the settings are saved |
| `icon` | the window's icon |

Upscales work below the directory in `WORK_ROOT`, or below `~/Videos/upscale_work` where that is
not set. The window's icon is read from `assets/icon.png` beside the executable.
