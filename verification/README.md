# fluxrpc_core

Transport-invariant RPC sessions whose protocol logic is proved with Verus.

Messages are JSON objects, written with their members in this order:

- request: `{"id":..,"method":..,"params":..}`
- successful response: `{"id":..,"result":..}`
- failed response: `{"id":..,"error":{"code":..,"message":..,"data":..}}`
- event: `{"event":..,"data":..}`

An absent payload is written as `null`. A standard error code is written as
its name, any other code as its number. When reading, the array forms
`[id, method, params]`, `[id, result]`, `[id, error]`, `[event, data]` and
`[code, message, data]` are accepted too, as is a standard code given as an
object `{"Name": null}`. A kind of message whose fields the text gives twice
(an `id` written twice, say) is not read as that kind; names that no kind
reads may repeat, and payloads keep the last entry of a repeated name.

## Layout

- `src/` — the verified library
  - `json.rs`: JSON documents as mathematical models, and the trusted
    wrappers around `serde_json` (build, look up, print, parse)
  - `message.rs`: the message types, their models, constructors and texts
  - `wire.rs`: how messages are written as bytes and read from documents,
    with the round-trip law
  - `layout.rs`: the member names of a message text as written, repeats
    included, and the proof that what the codec writes repeats none
  - `codec.rs`: `JsonCodec`, messages to bytes and back
  - `pending.rs`: the requests in flight, by id
  - `session.rs`: what a session decides on sending, receiving, answering and
    completing a request, with the laws of the request/answer cycle
  - `dispatch.rs`: the handlers of a session by name, and where requests and
    events go
  - `schema.rs`: the JSON Schema envelopes of a registry, and its events
  - `table.rs`: values kept by name, with the names in registration order
  - `transport.rs`, `text.rs`: frames and the texts built from values
- `app/` — the asynchronous runtime around the library: sessions over tokio
  channels and websockets (`ezsockets`), typed handlers, the schema registry
- `tests/` — tests of the library
