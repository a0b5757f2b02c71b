# cssengine

A CSS parser and style-sheet manager whose library is verified with Verus.

## Layout

`src/` is the verified library:

- `lexer`, `analyzer`, `parser`: CSS text to tokens, syntax errors, rules and
  `:root` variable substitution.
- `selector`: specificity, pseudo-classes, selectors.
- `values`, `length`, `shorthand`, `effects`: the value parsers (keywords,
  lengths and `calc()`, borders, shadows, backgrounds, grid tracks,
  transforms, filters).
- `declaration`: a property and its parsed value.
- `at_rules`: media queries, `@font-face`, `@import`.
- `style`: the style sheet (reading CSS text, merging, imports, the cascade).
- `properties`: properties of the cascade and of style-sheet composition,
  proved over the specifications.
- `units`, `text`, `color`, `duration`, `error`: value types and helpers.

Numbers are kept as the text that was written (`units::Number`); the library
only keeps texts that `f32` parsing accepts. Angles, filter amounts and
keyframe offsets keep their unit beside the number.

`app/` holds what the library leaves to its caller: reading numbers as
floats, evaluating media queries against a viewport, resolving `@import`
rules with a loader, easing functions and transitions, conversions to
`taffy`, and a global theme style sheet with file watching.
