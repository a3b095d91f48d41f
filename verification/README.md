# movelite

A local Move node for development: it answers the Aptos REST API over a
simulated session, and can trace a transaction call by call.

`src/` is the verified library. It holds what the node decides and computes:

- `text`, `json`, `encoding`, `names`, `address`: texts, JSON values, hex, BCS
  and percent encodings, identifiers, account addresses and module names.
- `value`: JSON renderings of Move values, built from a walk over them.
- `trace`, `tracer`, `trace_laws`: the call tree of a transaction, the tracer
  that grows it from a gas meter's callbacks, and what holds of every trace.
- `transaction`: what the node looks at in a transaction, and the records about
  it.
- `session_wrapper`: operation count and records of a session, and the steps by
  which one is opened.
- `http`, `request`, `ledger`, `server`: errors and headers, what a request asks
  for, the state of the ledger, and the answers.
- `urls`: URLs as they may be shown in a log.

Each function states in its contract what it gives back for every input. Laws
that relate several functions are public proof functions, named `law_*`.

Calls into other crates stand in small trusted wrappers, each with a comment
that says what is taken from the crate without proof: `hex`, `bcs`,
`urlencoding`, `url`, `http` (through `axum`) and `move-core-types`.

`app/` is the program around the library: HTTP routes, files, locks and the
virtual machine. It needs a checkout of aptos-core that carries the trace hooks.
`tests/` runs the library.
