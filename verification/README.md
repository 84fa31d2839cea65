# identity_hub

A DCP (Decentralized Claims Protocol) Identity Hub: a Credential Service and a
minimal Issuer Service, with the logic of both verified by Verus.

- `src/` is the library. Every decision, data structure and message of the hub
  stands there with its contract:
  - the credential graph over an embedded RDF store (`graph`, with `rdf`, `query`,
    `nodes`, `records`, `layout`, `grouping`, `issued`), the store in front of it
    (`store`) and its documents (`connector`);
  - tokens: `sts` mints them, `auth` and `evidence` decide on them, `replay`
    remembers them, `presentation` reads what they grant;
  - messages: `messages`, `validation`, `handlers`, `issuance`, `requests`, and the
    routes that identify their caller first (`routes`);
  - the process: `config`, `state`, `identity`, `outbound`, `scope`, `reply`;
  - `load` shapes the tokens and messages of a load test.
- A proof function whose name starts with `law_` states something that holds of
  the library as a whole.
- `app/` is ordinary Rust around it: the command line, the HTTP routes, signing,
  DID resolution. A route asks the library for a decision, performs the step that
  the decision asks for, and asks again until it is made.
- `tests/` runs the library with the real RDF store, regular expressions and URL
  parser.

What is trusted rather than proved is marked `external_body`, `assume_specification`
or `external_type_specification`, each with a comment on the outside function it
calls.
