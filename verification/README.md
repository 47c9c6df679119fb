# gossip_glomers

Nodes for the Maelstrom distributed-systems workloads (echo, unique ids, broadcast, grow-only
counter, replicated log), with their logic verified by Verus.

- `src/` is the verified library: message types, the transport's message numbering and
  request/reply bookkeeping, the node's handling of `init`, and each workload's decisions
  (broadcast's message set and gossip, the counter's and the log's compare-and-swap protocols
  against the key-value services, written as state machines that are fed the replies, and each
  counter or log request, from its arrival to its answer, in the same form).
- `app/` is the program around it: JSON on standard input and output, the tokio tasks and
  channels, the retry timer, and the loops that send each request a state machine asks for
  and hand it the reply. Run it with the workload's name as its argument.
- `tests/` runs the library on concrete messages.
