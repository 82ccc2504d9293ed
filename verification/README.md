# pvdp

Verified core of Prime Video Discord Presence: a Chrome native messaging host
that mirrors Prime Video playback as a Discord activity, with graphical and
command-line installers and uninstallers for Windows.

- `src/` is the library, proved with Verus:
  - `text`: splitting on a separator, decimal integers as `i64::from_str`
    reads them, white space trimming, substring search, replacement, and the
    lines of a text as `str::lines` yields them.
  - `clock`: playback clock texts (`h:m:s`, `m:s`) to seconds.
  - `frame`: the native messaging length header, payload decoding and sorting
    of messages by `message_type` (through `serde_json`), handing on the very
    value parsed from the message.
  - `session`: the host's read loop as a step machine (header, payload,
    deserialization, Discord call), with laws over whole input streams: bad or
    ignored frames are skipped without effect, each presence frame makes
    exactly its call, and the end of input ends the loop with success.
  - `presence`: the Discord activity for each presence message.
  - `log_sink`: the log lines forwarded to the extension's log viewer.
  - `installer`, `uninstaller`: window state and the install and uninstall
    procedures as step machines that ask for each outside operation. The
    install creates `C:\Program Files\primevideo-discord-presence`, places
    `pvdp.exe` and the `extension` folder there, writes the native messaging
    manifest and registers it; once it has finished, the window offers to open
    Chrome's extension page and the extension folder. Laws cover whole runs
    (the log only grows, the outcome is set once, at most so many steps).
    Each window frame goes through `InstallFrame` / `UninstallFrame`, whose
    `end` is proved to give `install_frame` / `uninstall_frame` of the state
    the frame began with; the laws over any number of frames
    (`lemma_install_frames`, `lemma_uninstall_frames`) are stated over those
    spec functions, and the frame types discharge their premise that a run
    only adds log lines.
  - `setup`: the PowerShell scripts and the manifest of the command-line tools,
    and the command-line install as a step machine that stops at the first
    failed command.
- `tests/` runs the library on concrete values.
- `app/` holds the program: the host (Discord, WebSocket log server, tray),
  the windows of the graphical tools, and the command-line tools, chosen by
  the first argument (`installer-gui`, `uninstaller-gui`, `install`,
  `uninstall`; none runs the host). The graphical installer copies its items
  from a `payload` folder beside the program.
