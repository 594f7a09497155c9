# oxml_wasm

XML parsing and XPath 1.0 queries over the `oxml` engine, answering
with strings, verified with Verus.

- `src/logic.rs` — the library's entry points (`parse`, `root_name`,
  `query_text`, `query_value`, `query_count`, `is_well_formed`,
  `to_xml`, and the same on `Document`), their contracts, and the laws
  that relate them.
- `src/bindings.rs` — `PREFIX=URI` namespace bindings: parsing, and the
  laws that later bindings win and the first bad entry is reported.
- `src/decimal.rs` — base-ten rendering of the line and column in a
  parse error.
- `src/engine.rs` — every call into `oxml`, each behind one trusted
  item, and the handles that record what each `oxml` value was
  computed from.
- `app/lib.rs` — the `wasm-bindgen` layer: JavaScript names and
  `JsError`s over the library.
