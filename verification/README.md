# quick

The verified core of the Quick UI framework, written in Verus.

`src/` is the library; every function in it carries a contract that Verus
proves:

- `signals` — the reactive dependency graph: which effects read which
  signals, batching, disposal, and which effects a write or a batch end runs.
- `markup` — the declarative UI document (`UiNode`, `UiDocument`), the tree
  builder driven by XML events, and the XML front end over `quick-xml`.
- `xml_reader` — the `quick-xml` reader that front end drives; each of its
  answers is named as a function of the text and of the requests made so far.
- `css`, `selector`, `property` — the style sheet text layer: blocks,
  declarations, keyword and integer values, selectors, matching, specificity
  and the cascade order.
- `color`, `color_scheme`, `scheme`, `tokens`, `noctalia`, `base` — colors,
  hex parsing and formatting, role tables, scheme variants, motion tokens,
  the Fluent base palette, size scales and OS theme decisions.
- `telemetry` — reading process metrics from a `status` report, and a timer.
- `text` — character-level helpers (trimming, parsing integers, lines).

`app/` holds what Verus does not check: `f32` geometry, computed styles and
layout through taffy, the thread-local signal runtime that owns effect
closures, TOML documents through serde, and calls to the OS.

`tests/` exercises the library on concrete values.
