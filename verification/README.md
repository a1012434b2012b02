# video-trimmer

A minimal Wayland-only MP4 trimmer: select an in/out range, preview it, and
export a precise cut as MP4, WebM, GIF or a stream copy.

The decisions of the program live in the `video_trimmer` library under `src/`,
written in Verus and proved against their contracts:

- `config` — config file location and the precedence of defaults, config
  file, output extension and flags;
- `export` — the single export slot, the hardware-to-software fallback run,
  the exact FFmpeg argument lists, acceleration records, destination checks
  and the effective start of a stream copy;
- `media` — input checks, keyframe index and lookup, ffprobe report checks,
  the current media and which load owns it, preview proxy arguments;
- `preview_server` — request heads, routes, byte ranges and response heads of
  the loopback preview endpoint;
- `acceleration` — decoder classification from GStreamer diagnostics;
- `app`, `cli`, `lifecycle`, `logging`, `error` — launch options, exit
  statuses, the Wayland socket, trace file names and error texts;
- `text`, `paths` — the string and path operations the rest is stated over.

`app/` is the program around it: command line, TOML config, logging, the Tauri
window and commands, FFmpeg processes and the Tokio server. `tests/` exercises
the library.
