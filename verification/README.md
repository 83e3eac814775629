# api_iota_streams

An HTTP service that creates IOTA Streams authors and subscribers, publishes
JSON messages on a channel, and fetches them back.

- `src/` is the verified library: the records the service hands
  out (`schema`), the text form of a link (`link`), random seeds and
  passwords (`seed`), the Base64 form of exported author state (`codec`),
  the framing of published payloads (`payload`), reading fetched messages
  back into JSON values (`fetch`), and the author record (`author`).
- `app/` is the service itself: the actix-web handlers, the IOTA Streams
  calls, and the request and response types with their serde derives.
- `tests/` exercises the library on concrete values.
