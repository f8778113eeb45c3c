# galileo_maplibre

MapLibre styles for the Galileo map engine, written in Verus.

`src/` is the verified library:

- `json` — the JSON model that every reader works on, and the reading of JSON text through
  `serde_json`;
- `decode` — member readers with the fallbacks of lenient style parsing;
- `style` (with `value`, `source`, `layer`) and `tilejson` — best-effort readers of style
  documents, sources, layers, property values and TileJSON manifests;
- `ml_expr` — the MapLibre expression parser, with its interpolation curves;
- `expr`, `parser` — Galileo feature expressions and the parser of their text syntax;
- `convert` — the conversion of MapLibre expressions into Galileo expressions;
- `plan` — which sources and layers become vector tile layers, and with which rules;
- `tile_url` — tile URL templates;
- `tiles` — the tiles that a tiled layer keeps on display while the view changes;
- `color` — CSS colors, read by the `csscolorparser` crate.

`app/` logs the members of documents that are not read, evaluates expressions on
floating-point numbers and holds the glue that a renderer needs. `tests/` runs the library on concrete values.
