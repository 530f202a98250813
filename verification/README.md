# extender

A remote extended monitor for Wayland desktops: a host creates a virtual
monitor (Hyprland headless output or GNOME Mutter screencast), encodes it with
GStreamer and streams it over RTP; a client shows the stream and sends its
input back over UDP.

- `src/` is the verified library:
  - `wire`: byte layout of primitive values, written and read through `bincode`;
  - `events`, `protocol`: input events, handshake messages and packets, their
    wire layout, encoding and decoding in the current and in the older framing;
  - `roundtrip`: a packet written in the current framing is read back as
    itself; a message in the older framing is read back as that message unless
    its bytes are also exactly a current packet; what is read in the current
    framing is exactly an encoding;
  - `session`: what the host does with each packet, and how the client opens a
    session and pings;
  - `pipeline`, `monitor`, `text`: GStreamer pipeline descriptions, choice of
    virtual-monitor backend, Hyprland commands, Mutter recording fallback;
  - `config`: session settings.
- `app/` is the program around it: command line, sockets, processes, D-Bus.
- `tests/` runs the library on concrete values, including byte-for-byte
  comparisons with `bincode`.
