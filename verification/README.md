# scrap_wayland

Screen capture on Wayland through PipeWire: which portal is asked, how its handshake goes, which
streams it grants, where they stand among the displays, and how samples become frames. The logic is
written in Verus and proved against its contracts.

- `src/` is the verified library. It works on plain values and reads or writes nothing itself.
  - `stage`, `errors`, `text`: tags that name the cause of a failure, safe to show to the user.
  - `choice`: the server process, and the choice between the remote desktop portal and the screen
    cast portal.
  - `request_path`, `portal`, `reply`, `handshake`: the requests to the portal, its answers, and
    the state machine that leads from one to the next.
  - `mutter`: the screen cast of the compositor, which asks the user nothing.
  - `display`, `capturable`, `session`: displays, streams, how a session is opened (the compositor
    first, the portal after it), and the session that is held.
  - `pipeline`, `recorder`: what the capture pipeline is made of, and how samples become frames.
  - `positions`, `offsets`, `corner`, `probe`, `sort`, `fill`: where the streams stand: by size, by
    what was stored, or by watching the cursor.
  - `launch`: which program a start is meant for.
- `tests/` runs the library.
- `app/` is the program around it: the message bus, GStreamer, settings and the command line.

Functions whose name starts with `law_` state what holds of several functions together.

Trusted are the contracts of `String::push`, `str::to_lowercase`, `String::from_utf8_lossy`,
`dbus::Path::new` and `dbus::Error::new_failed`. Each stands next to the wrapper or declaration that
it belongs to.
