# carbon

A small event-driven web server core, verified with Verus.

- `src/io/kevent.rs`: kqueue event records as plain values.
- `src/io/event.rs`, `src/io/notification.rs`: the records that add and
  remove watches, identifiers, event sets, and the event loop that records
  watch changes and hands fired events to a handler; `src/io.rs` holds the
  first form of the event loop, whose handlers get raw records.
- `src/server.rs`: messages, client send queues, the dispatcher that decides
  what each event calls for (accept, close, receive, send) and keeps the
  connections' queues and watches, and the laws of a connection's life.
- `src/http.rs`: methods, requests (parsed with `httparse`), responses and
  their text.
- `src/router.rs`, `src/view.rs`, `src/service.rs`: routing rules (patterns
  compiled with `regex`), views and the service trait.
- `app/`: the program: sockets, the kqueue, files, printing.
