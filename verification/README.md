# Exact SNI Relay

A TCP relay that reads a bounded TLS ClientHello, picks an upstream by the exact
server name, sends on the bytes that it read, and relays both directions without
terminating TLS. Beside it stands a small TLS terminator for the relay's local
fallback path, and a load generator for that.

The decisions are a library in Verus: what a stream is, where it goes, who is let
in, what is counted, what comes next. The programs around it do the input and
output.

## Layout

- `src/tls.rs`, `src/client_hello.rs`: what a stream is, from its first bytes.
  `src/tls_laws.rs`, `src/hello_laws.rs`: the answer does not depend on how the
  stream is cut, and what was written into a ClientHello is read out of it.
- `src/hostname.rs`, `src/hostname_laws.rs`: the normal form of hostnames.
- `src/config.rs`, `src/config_laws.rs`: what a configuration must satisfy.
- `src/routing.rs`: where a connection goes.
- `src/admission.rs`: the three pools, and the cap for each source.
- `src/relay.rs`, `src/proxy.rs`, `src/service.rs`, `src/hello_reader.rs`: the
  life of a connection and of the service, as state machines.
- `src/splice.rs`: buffers, accounting, and half-closed connections.
- `src/metrics.rs`, `src/instruments.rs`, `src/http.rs`: what is counted, and the
  endpoint that tells it. `src/metric_names.rs`: a registry takes every name.
- `src/fallback.rs`, `src/sni_policy.rs`, `src/certificate.rs`: the TLS fallback.
- `src/loadgen.rs`: the load generator.
- `src/address.rs`, `src/number.rs`, `src/text.rs`, `src/error.rs`: plain values.
- `app/`: the programs.
- `tests/`: the library on concrete values.

Functions named `law_` state what holds across calls. What is believed of outside
crates without proof stands on functions marked `external_body` and on
`assume_specification` items, each with a comment that says what is claimed.
