# NodeMesh

Nodes that exchange messages and media over a private network.

- `src/` is the library: the message format, addresses, peers and their connections, the bridge to
  the local application, the selective forwarding unit, and the extraction of text from documents.
  Every function there states what it does in `requires` and `ensures` clauses that Verus proves.
  Laws that relate several functions are proof functions whose names start with `law_`.
- `app/` holds the programs around it: the daemon `meshd`, the document tool `docparse`, and the
  browser test harness `sfu-test`. They read and write; the library decides.
- `tests/` runs the library on concrete values.

Calls into other crates stand behind small functions marked `#[verifier::external_body]` and behind
`assume_specification` items. Above each stands what is claimed of the call and not proved.

| Module | What it holds |
| --- | --- |
| `text`, `number`, `strmap` | text, decimal numbers, maps and sets of text |
| `message`, `roundtrip`, `address`, `validate`, `json` | AMP messages and addresses |
| `connection`, `peer`, `link` | connections with peers |
| `bridge`, `events`, `config`, `metrics` | the daemon |
| `sfu`, `room`, `relay`, `engine`, `session`, `fanout`, `unit`, `media` | the selective forwarding unit |
| `harness` | signaling for a browser |
| `document`, `prose` | documents |
