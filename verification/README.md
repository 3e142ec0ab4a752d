# photoframe

The logic of a wall-mounted photo frame, written in Verus and proved against
its contracts: the power-button tracker and wake/sleep daemon, the awake
schedule in a named time zone, the viewer's state machine and slideshow
sequencing, the playlist scheduler, the load-order buffers, display power
switching, control-socket messages, configuration rules and image layout.

Layout:

- `src/` — the verified library, one module per concern (`daemon`, `awake`,
  `viewer_state`, `slideshow`, `playlist`, `loader`, `display_power`,
  `config`, `layout`, `decode`, ...). Calls into `chrono`, `chrono-tz`,
  `rand`, `serde_json`, `image` and `kamadak-exif` go through small trusted
  wrappers whose contracts are stated beside them. The daemon's and the
  display controller's calls to the outside world are recorded, in order,
  in ghost call logs that their contracts speak of.
- `tests/` — tests of the library on concrete values.
- `app/` — the command-line program around the library: argument handling,
  files, sockets, processes, input devices, image decoding and the
  floating-point playlist weights.
