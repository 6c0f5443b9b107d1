# Capability router

A router for agent requests, and a vision agent that stands behind it. The library under
`src/` is verified with [Verus](https://github.com/verus-lang/verus): what each function
returns is stated in its contract and proved.

## The router

A request is a JSON-RPC envelope with a message made of parts. Five probes score how well
its *shape* fits what a specialist does: the kinds of its parts, the endings of file names,
media types, and which members its data has. The best probe wins if its score reaches the
threshold, and the request goes to its specialist byte for byte. Otherwise the router
refuses: a request sent to the wrong specialist is worse than one sent to none.

| Capability       | Looks for                                                       |
|------------------|-----------------------------------------------------------------|
| `vuln-repro`     | a source archive, a patch, or the exit code of a run            |
| `policy-tooluse` | a session that starts or goes on; tools and context add to it  |
| `text-codegen`   | a prompt, and nothing that another capability would claim       |
| `vision-qa`      | an image or a document, better with a question                  |
| `gui-agent`      | an action space with what is observed, or a desktop observation |

Scores are counted in hundredths.

## The vision agent

It reads the question and the files of a message, shows them to vision-language models in
order of preference, asks again where that makes sense, and answers at once or as a stream
of events.

## Layout

- `src/text.rs`, `src/json.rs`, `src/wire.rs`: text, JSON documents, and JSON on the wire
- `src/envelope.rs`, `src/probe.rs`, `src/probes/`: the shape of a request, and its scores
- `src/routing.rs`, `src/registry.rs`, `src/forward.rs`, `src/sse.rs`, `src/card.rs`: the router
- `src/laws.rs`: what holds of the router as a whole
- `src/agent/`: the vision agent
- `app/`: the two servers, `router` and `agent`
- `tests/`: tests on concrete values

What is believed and not proved is what the library asks of others: reading and writing
JSON (`serde_json`), base64 (`base64`), images (`image`), regular expressions (`regex`),
random identifiers (`uuid`), and two functions on strings of std. Each such call stands in
a small function of its own that says what is claimed of it.
