# sip_sbc

The decision core of a SIP session border controller, verified with Verus.

- `src/addr.rs`: addresses as plain numbers; which of them lie inside
- `src/rtp/session.rs`: one relay session: latching and forwarding
- `src/rtp/engine.rs`: relay ports, and which call has which
- `src/sip/dns.rs`: host names, with a cache that outlives the network's silence
- `src/sip/media.rs`: session descriptions: what they announce, how they are cleaned
- `src/sip/packet.rs`: SIP packets as far as the core looks into them
- `src/sip/server.rs`: the signalling loop and routing
- `src/telemetry.rs`: log records
- `src/text.rs`: numbers, words and lines
- `src/maps.rs`: the concurrent maps of `dashmap`, with the contracts that are trusted of them

The other contracts that are trusted rather than proved stand beside their callers:
`rand` and `tokio` in `src/rtp/engine.rs`, `regex` and the decoding of bytes in
`src/sip/media.rs`, `chrono` in `src/telemetry.rs`.

`app/` holds what runs around the core: sockets, timers, tasks, the SIP codec and log
output. Laws that relate several operations are the public proof functions named
`law_...`.
