# Funnel

A client for Discord guild analytics: it receives a guild's messages, member
counts and member joins/leaves from a websocket server, and shows an overview,
user and channel tables, message and user activity charts, and the most common
phrases.

- `src/` is the library, verified with Verus: the data of every tab, the date
  handling, the event queue, the panels, and the state machine (`window`) that
  turns server replies and events into changes and requests.
  `laws.rs` holds properties that span several operations.
- `app/` is the program around it: the websocket link, the JSON forms of the
  messages, and the drawing with egui.
- `tests/` runs the library on concrete values.
