# powerwatch

Watch OS power and session events (suspend, resume, screen locked, screen
unlocked, shutdown) on a channel, without a GUI event loop.

`src/` is the verified library: the decisions of a watcher, each proved
against its contract.

- `power`: what a system power message from IOKit becomes (acknowledge at
  once, then `Suspend` or `Resume`), and what a screen notification becomes.
- `subscribers`: one unbounded channel per watcher under its own id; each
  event is handed once to every channel, then the subscribers whose send
  failed are dropped. Which sends succeed depends on the receivers and is not
  stated.
- `registration`: the steps that register the shared runtime with the OS, and
  what is released when one fails.
- `handles`, `lifecycle`, `runtime`: the OS handles of the shared runtime, and
  its life from the first watcher that starts to the last that is dropped.
- `error`, `event`, `events`, `channel`, `watch`, `platform`: the public types
  and the receiving end of a watcher.

`app/` makes the OS calls (IOKit, Darwin notify, GCD on macOS), offers the
async receive and the `Stream`, and gives the errors `Display`.
