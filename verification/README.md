# Blutgang

A caching JSON-RPC load balancer for Ethereum nodes, whose logic is a
library verified with Verus.

- `src/` is the verified library: JSON values and their text (`json`),
  text and number reading (`text`), the nodes and their answers (`rpc`),
  node selection, cache rules and request framing (`balancer`), health
  checks and the head cache (`health`), WebSocket routing and the
  subscription tables (`websocket`), the admin namespace's methods and
  probes (`admin`), settings resolution (`config`) and database batches
  (`database`).
- `app/` is the program around it: the command line, the config file, the
  HTTP, WebSocket and admin servers, the requests to the nodes, the sled
  database, and the floating-point latency averages.
- `tests/` runs the library on concrete values.
