# rookie

The processing backend of a rule-taker / rule-reserve system: a store of
versioned rules, an index of when, where and to which document keys each
rule applies, the evaluation of a rule's conditions against a document,
and a websocket protocol to get, publish, store and submit documents.

The library in `src/` is verified with Verus:

- `text`, `path`, `json`: decimal numbers, Unix paths and JSON values as
  plain data, with the operations the rest relies on.
- `rules`: the parts of a rule (in-effect periods, conditions, assertions,
  properties).
- `rule`: where revisions of a rule are stored and how the latest and the
  next revision are found.
- `ruleset`: reading a rule from its JSON form. This format is a stand-in:
  the rule-file grammar that rules are written in is not part of this
  repository, so rules are kept as JSON objects (string properties,
  `in_effect`, `input_conditions` and `assertions`) until it is.
- `invoke`: evaluating a rule's conditions against a document.
- `select`: the key paths of a document and the latest version of each
  rule found for it.
- `ingest`, `db`, `submissions`, `server`, `rs`, `mult_sock`, `daemon`:
  the decisions of each program, with their input and output left out.
- `outside`: the trusted calls into `regex`, `uuid`, `chrono`, `chrono-tz`
  and the parts of `std` that vstd does not specify.

`app/` holds the programs themselves (one subcommand each): file, socket
and database input and output around the library.
