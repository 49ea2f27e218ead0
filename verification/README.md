# Newfoundsync server

Shares a machine's sound, and its screen, with browsers on the local network. Every browser buffers
a few seconds, agrees on a clock with the server, and plays in lock-step.

`src/` is the library, verified with Verus. It holds what the server decides and computes: the
wire format, the client registry and the rules of casting, the session of one connection, the time
stamps of audio and video, the video producer, keyframe detection, pixel conversion, encoder
choice, source lists, the health report, settings, certificates, and the state behind the window.
Each public function says in its contract what it returns; proof functions named `law_...` state
what holds across functions.

`app/` is the program around it: flags, sockets, TLS, the sound server, processes, screen capture
and the window. Capture and encoders that need a system library are compiled with a flag each:
`--cfg linux_capture`, `--cfg mac_capture`, `--cfg video_encode`, `--cfg vp9`; `--cfg no_gui`
leaves the window out.

`tests/` runs the library, with the crates that it calls.

The web client's files and icons are read at run time from the directory that `NFS_WEB_DIR` names,
else from `web/` beside the program; each is looked for by itself.
