# capsule_corp

A style and layout engine for terminal interfaces: CSS-like style sheets are
parsed, matched against a caller's element tree, cascaded into computed
styles, and laid out in whole terminal cells (block, inline and flex
layout). It also holds the data of DOM-style input events.

- `src/` is the verified library, written in Verus: rule buckets and source
  order, cascade ordering, custom properties and `var()` substitution,
  selector dependencies and restyle hints, keyword tables, box arithmetic,
  computed styles and how declarations write them, reading values with
  `var()`s and colors through `cssparser`, text measurement, the flex
  layout steps, and event state.
- `app/` is the plain Rust around it: the rest of the parsing with `cssparser`, matching with
  `selectors`, the walks over the caller's document, and the parts that work
  with fractional values.
- `tests/` runs the library on concrete values.
