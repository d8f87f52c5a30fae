# agent_cache

Routing of agent requests by what inference workers have cached, verified with
Verus.

For a request and a worker, the library decides whether the request's prefix is
used where it lies, restored from another place, or computed anew, and by how
much the router's own score is adjusted.

- `src/inventory.rs`: the reports of workers, and when a report is trusted.
- `src/digest.rs`: the opaque identities in them.
- `src/cost.rs`: what using, restoring and computing a prefix costs.
- `src/decision.rs`: what a decision holds, and the bound on its adjustment.
- `src/routing.rs`: which report a decision rests on.
- `src/laws.rs`: what holds of every decision.
- `src/invariance.rs`: what may change without changing a decision.
- `src/binary64.rs`, `src/rounding.rs`: binary64 numbers by their bits, and
  rounding to nearest with ties to even, over integers.
- `app/`: the serialized form of reports and requests, and the same operations
  over the host's doubles.
