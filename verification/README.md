# ws_bench

A benchmark that sends a run of equal text messages through several
WebSocket libraries over an in-memory connection, has a server echo them
back, checks every echo on the client, and prints the timings of each
library, fastest first.

- `src/` is the verified library (Verus):
  - `workload.rs`: stream sizing per run and the `x` payloads;
  - `stream.rs`: the in-memory connection the client and the server take
    turns on, with laws on what a read returns of a write;
  - `session.rs`: the decisions of a run (what the client sends next, what
    the echo server does with a frame, the client's checks on what comes
    back) and the law that a run whose server echoes checks out;
  - `reassembly.rs`: the echo server that collects fragmented messages
    before sending them back whole;
  - `report.rs`: the stable ordering of the results by total time.
- `app/` is the program: one async run per library, driving the library's
  API with the decisions above, and the report printing.
- `tests/` exercises the library on concrete values.
