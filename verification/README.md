# signaling

A client for a signaling server: it finds the peer that asks for the same
session, agrees with it on a direct connection, and brings that connection up.

`src/` is a library verified with Verus. It holds everything that is decided or
computed, as a state machine: a `Session` asks for one `Action` after another
and is told by an `Event` what came of it.

| module | what it holds |
| --- | --- |
| `client` | the session: its stages and its one step |
| `establish` | an attempt at a websocket, from the dial to the offer |
| `exchange` | waiting for the peer and exchanging descriptions |
| `trickle` | exchanging candidates until the connection is up |
| `run` | what holds of a session over any number of steps |
| `action`, `packet` | what a session asks for and is told, and what it sends |
| `address` | where to dial |
| `ice` | setting up a peer connection from the server's greeting |
| `sdp`, `text` | reading a certificate fingerprint out of a description |
| `ws`, `error`, `time` | the websocket's messages, failures, and timing |

`app/` runs a session on a real websocket, real timers and a real peer
connection, natively and in a browser. It takes the protobuf messages of the
signaling schema as a parameter.
