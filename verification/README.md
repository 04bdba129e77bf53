# querygraph

Governed semantic metadata for AI agents: Croissant and CDIF descriptions of
datasets, `did:oyd` documents, qg-python compatible TypeDID envelopes,
OpenLineage run events, the typed-column inference and naming rules of the
lakehouse loader, and the Model Context Protocol core (handshake, stateless
requests, model handles, HTTP header checks).

- `src/` is the library. Every function in it carries a Verus contract and is
  verified; calls into `sha2`, `bs58`, `ed25519-dalek`, `uuid`, `base64`,
  `csv` (reading and writing delimited records) and `std` (`String::push`,
  `String::from_utf8`, `Path::file_stem`) go through small wrappers whose
  contracts are documented where they stand.
- `tests/` exercises the library on concrete values.
- `app/` is the command line: argument parsing, stdio and HTTP transports,
  HTTP clients, files, workbook reading (`calamine`), and the serde forms of
  the library's types.
