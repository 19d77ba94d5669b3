# sleepy_session

`sleepy_session` is the decision logic of a desktop session daemon, written in
Verus: executable Rust whose behaviour is stated in contracts and proved.

- `src/notifications` keeps notifications: the store and its limits, the log that
  makes every change durable, its recovery, the provider and its socket.
- `src/desktop` keeps the state of the desktop: its domains, the adapters that
  read and change them, the registry and the authority that publish them, the
  commands of clients and the record that executes each at most once, network
  secrets, the tray, the utilities and the locker.
- `src/launcher` reads desktop entries, builds their command lines and ranks them.
- `src/osd.rs`, `src/overview.rs` and `src/doctor.rs` route what is shown over the
  desktop, follow the windows and report on the daemon.
- `app/` is the daemon around the library: files, sockets, processes, tasks and the
  bus. It hands the library plain values and takes plain values back. Documents on
  the wire and on disk are parsed and written there with `serde`, into copies of the
  library's types.

What the library has from other crates stands behind small functions whose
contracts say what is relied on: random identifiers and their text (`uuid`), the
text of a time (`chrono`), JSON strings and the JSON value of a frame (`serde_json`)
and wiping (`zeroize`).

Where an order matters it is part of a contract: a function that is handed another
may call it only once what has to come before was seen to happen. A change of the
desktop is made once, by its own command line, and what confirms it is read after
it; the machine is told to sleep only with the hold on the lock acquired. A
subscriber gets the snapshot before any event, and a notification is taken into
memory only when its record is on the disk.
