# tiangz

The core of an actor-style game server, verified with Verus.

Clients connect over TCP or KCP and send frames: a two byte length and a MessagePack map that names
its message type in the field `_t`. The server turns a frame into a message, finds the handler of its
type, and sends what the handler answers back to the client that asked.

- `src/` is the library. It does no I/O.
  - `frame`: cutting a byte stream into frames, and building frames
  - `envelope`: decoding MessagePack and finding the message type
  - `message`, `layer`: the message types
  - `registry`: tables keyed by message type
  - `handler`: what is done with each message
  - `dispatch`: from a frame to a request, and from a request to a reply
  - `clients`: the table of connected clients
  - `server`: one turn of each loop of a running server
  - `running`: the loops and queues of a running server over time
  - `priority`: the process priority
- `app/` is the program: sockets, queues, tasks, logging and the command line.
- `tests/` exercises the library.

Public proof functions whose names start with `law_` state what holds of the library as a whole.
