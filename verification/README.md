# elementor_style_renderer

Renders Elementor atomic-widget style definitions (trees of typed prop values,
`{"$$type": ..., "value": ...}`) to CSS text, with state selectors and
breakpoint media queries.

- `src/` is the library, written and proved with Verus. Every public function
  states its result exactly over a mathematical model: `JsonView` for JSON
  values, `Seq<char>` for text, lists of pairs for maps.
  - `json.rs`: the JSON value model; numbers carry the texts and integer that
    rendering reads of them.
  - `text.rs`, `assoc.rs`: text and ordered-map helpers.
  - `transformer.rs`, `transformers/`: the transformer trait, one transformer
    per `$$type`, and the registry.
  - `props_resolver.rs`: resolution of props through the registry.
  - `style_states.rs`, `styles_renderer.rs`: selectors and rendering.
- `app/` parses JSON with serde and converts it into the library's types.
- `tests/` runs the library on concrete inputs.
