# goatns

An authoritative DNS name server, with the parts that decide what goes on the wire
verified with Verus.

- `src/` is the verified library: the DNS header, question and resource-record wire
  formats (with name compression), building records from zone data, the decisions the
  servers make about each query (SERVFAIL, NOTIMP, NXDOMAIN, ANY, CHAOS shutdown, UDP
  truncation, TCP framing), the datastore's answer from stored rows, and the small
  validators, configuration texts and Content-Security-Policy header texts around them.
  Calls into `hex`, `regex`, `sha2`, `http` and `chrono` go through the trusted items
  whose contracts are spelled out next to them (mostly in `src/external.rs`).
- `tests/` exercises the library on concrete values.
- `app/` is the program: command line, configuration file, UDP and TCP sockets, a
  JSON-file record store, and reading IP addresses and LOC positions out of record text.
