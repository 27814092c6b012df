# LChat

A peer-to-peer chat for a local network: two windows, one TCP connection, texts
and files.

- `src/` is the library, verified with Verus: the frames on the wire
  (`frame`), what they carry (`message`), names for received files (`names`),
  the one active connection (`net`), the peers found (`peers`), the addresses of
  this machine (`hosts`), what the window holds and shows (`window`), sizes
  (`size`) and strings (`text`).
- `app/` is the program around it: sockets, files, threads and the window.
- `tests/` runs the library on concrete values.

A frame is a kind (one byte), the length of its payload (eight bytes, the most
significant one first) and the payload. Kind 0 carries UTF-8 text. Kind 1 carries
a file: the length of its name (two bytes), the name, the contents.
