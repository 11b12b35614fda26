# phonebridge

Mirrors the screens of iPhones and Android phones on a desktop and passes mouse, keyboard and
clipboard input on to them.

- `src/` is the library: the state machine of a session, the registry of sessions, the input and
  paste rules, the wire formats (HID reports, the control protocol of Android phones, the HTTP
  dialogue with the automation server of an iPhone, the frame channel to a window), the parsers of
  what the platform tools print, and the order of steps in which mirroring, control and the
  preparation of an iPhone start and stop. Every function has a contract that Verus proves; the
  public proof functions state what holds across them.
- `app/` is the desktop program round it: windows, processes, sockets, threads, the clipboard and
  the Bluetooth stack.
- `tests/` runs the library on given inputs.

Contracts speak of texts as `Seq<char>` and of most types through their view. What the library
takes on trust from `std` and `serde_json` stands in `src/text.rs` and `src/json.rs`, each item
with a note on what it claims.
