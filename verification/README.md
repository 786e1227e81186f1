# tailpipe

An SSH server that plays back terminal recordings in asciinema's `.cast`
format, versions 2 and 3. What decides the course of a session is a library
that Verus verifies; the program around it does the input and output.

- `src/cast.rs`: reading a recording, from its lines to its events.
- `src/player.rs`: playing it. `play` goes straight through; `play_interactive`
  takes commands. Both are told what time it is and say what to do next. A
  `Player` keeps its state to itself, and is told only what it asked for.
- `src/screen.rs`: what is on the viewer's screen, and the laws of playback.
- `src/overlay.rs`: the text and the place of the overlay of a paused playback.
- `src/config.rs`: the server's and the users' settings.
- `src/session.rs`: one connection, from the user's name to the keys they press.
- `src/terminal.rs`: bytes that wait to be flushed.
- `src/decimal.rs`: numbers as text.
- `app/`: files, sockets, the clock, floating point, and drawing.

## Controls

- Space: pause and resume
- Left and right: seek backward and forward
- o: toggle the overlay
- q or Ctrl-C: quit

## Configuration

```toml
[server]
port = 4242
host_key = "/etc/tailpipe_ed25519.key"  # without it, a new key at every start
header = "/srv/casts/header.cast"       # played before every session
footer = "/srv/casts/footer.cast"       # played after every session

[user.demo]
castfile = "/srv/casts/demo.cast"

[user.custom]
castfile = "/srv/casts/custom.cast"
header = "none"                         # no header and footer for this user
footer = "none"

[user.default]                          # for names that are not listed
castfile = "/srv/casts/default.cast"
```

## Usage

    tailpipe [config.toml]

Without an argument the configuration is read from `tailpipe.toml` in the
current directory.
