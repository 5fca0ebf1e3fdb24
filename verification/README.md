# workspace_atlas

A verified core for a local catalogue of source workspaces. The library decides; the
program around it reads files and databases, asks the library, and acts.

- `src/` is the library. Every function states what it returns, and Verus proves it.
- `tests/` runs the library on concrete values.
- `app/` is the `atlas` program: arguments, files, SQLite, and the printed JSON.

## The library

| Area | Modules |
| --- | --- |
| Texts, digests, JSON, names | `text`, `sorted`, `digest`, `json`, `json_tree`, `naming`, `paths` |
| Configuration | `config`, `config_json` |
| Context packets | `broker` |
| Context documents | `context_ir`, `context_ir_json`, `deep_context_ir`, `deep_context_ir_json` |
| Routing and execution | `context_route`, `context_capabilities`, `context_execution`, `context_dispatch`, `context_metrics` |
| Route outcomes | `light_outcome`, `light_outcome_json`, `deep_outcome` |
| Application boundary | `context_application`, `application_cursor`, `application_error`, `compiled_context`, `context_yield` |
| Catalogues | `catalogue`, `catalogue_route`, `unregister`, `doctor` |
| Commands | `cli` |
| Errors | `error` |

Laws that relate several functions are public proof functions whose names begin with
`law_`.

What the library takes on trust from other crates and from the standard library stands
in functions marked `#[verifier::external_body]` and in `assume_specification` items,
each with a comment that says what it claims:

- SHA-256 digests, hexadecimal text and UTF-8 text (`digest`)
- regular expressions (`config`)
- timestamps, their distance and the clock (`catalogue`)
- durations and the monotonic clock (`catalogue`, `context_dispatch`)
- JSON strings as they are written (`json`) and JSON documents as they are read
  (`json_tree`)
- the debug form of texts (`context_ir`)
- white space, and appending a character to a text (`text`)
