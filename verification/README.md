# rustsni

The host side of the StatusNotifierItem protocol for Linux system trays: a
`StatusNotifierWatcher` and `StatusNotifierHost` on the D-Bus session bus that
discovers tray items and provides their properties, icons and menus, without
spawning threads.

The crate is in two parts.

- `src/` is the library. It holds every decision and no I/O, is written in
  Verus, and proves what it promises.
- `app/` is ordinary Rust around it: it owns the connection (`rustbus`), does
  what the library asks for, and hands back what came of it.

## The library

| module    | what it holds                                                         |
|-----------|-----------------------------------------------------------------------|
| `tray`    | the state of the host, rounds of polling, and calls to items          |
| `startup` | how the host takes its bus names and finds the items already there    |
| `watcher` | the watcher interface: method calls, signals, names of services       |
| `host`    | the well-known name of the host                                       |
| `items`   | the known items, and the events that tell of changes                  |
| `item`    | tray items, and how their properties are read                         |
| `menu`    | `com.canonical.dbusmenu`: calls, layouts, properties, events          |
| `icon`    | ARGB32 pixmaps                                                        |
| `message` | D-Bus messages as plain data                                          |
| `wire`    | message bodies and the D-Bus wire format                              |
| `value`   | D-Bus values as trees of plain data                                   |
| `text`    | text operations                                                       |
| `error`   | the errors                                                            |
| `laws`    | what holds of the host in every state, and over several steps         |

Reading and writing message bodies is left to `rustbus`. The functions that call
it stand in `wire`, each with a statement of what is taken for granted of it.

A round of polling is a conversation. `TrayHost::poll` begins it, each `Request`
says what to do with the connection, and `TrayHost::resume` takes the `Answer`:

```rust
let mut turn = host.poll();
loop {
    let answer = match turn.request {
        Request::Send(message) => send(message),
        // ...
        Request::Finished(events) => return Ok(events),
        Request::Failed(error) => return Err(error),
    };
    turn = host.resume(turn.poll, answer);
}
```

## Promises

- An identifier stands for one item at most, in every state.
- A round never waits for a message, and handles every message there is. The
  properties of an item are asked for, and taken when they come.
- Registering a known service again changes no item, and tells that the known
  item has changed.
- Every method call is answered, on any object path: at once, or, for the
  registration of an item, when the item or the bus has answered the call that
  reads its properties. How long that takes is up to them.
- When a connection goes away, its items are removed and no others.
- The events of a round tell which items there are: replayed on the
  identifiers before the round, they give those after it.
- A shutdown is told of once, first thing in the next round.
- Messages that arrive while the host comes up, or while it waits for an
  answer about a menu or about an item to add, are kept, in order. Only signals
  are skipped, and only while a name of the watcher or an answer about a menu
  is awaited.
- One name is probed per round; a probe that times out is tried three times
  more.
- What is written to a message body is what is read from it.
