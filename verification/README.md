# rrchat

The server side of a live chat and video-call application, with its logic
verified by Verus.

- `src/` is the verified library: the chat lobby (sessions, rooms, rosters,
  broadcast and private lines), the video lobby (users, rosters, relaying of
  WebRTC signals), and the per-connection decisions of both kinds of
  websocket (heartbeat, joining, leaving, incoming frames). It computes what
  is to be sent to whom; it sends nothing itself.
- `app/` is the actix server around it: the actors, the HTTP routes, TLS,
  JSON on the wire, the clock that drives the heartbeat, and the sending of
  the deliveries that the library computes.
- `tests/` runs the library on concrete sessions and messages.
