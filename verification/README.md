# aster_ui

The verified core of a headless widget dashboard for small LCD panels.

- `src/` is checked by Verus. It holds the binding language for sensor
  values (`binding`), decimal numbers as written (`number`), the CSS subset
  (`style` for properties and values, `sheet` for rules and selectors,
  `cascade` for the computed style of a widget tree), the dashboard
  configuration and its checks (`config`), component parameters
  (`params`), widgets and conditions
  (`widget`), integer pixel arithmetic (`paint`), the path order of asset
  lists (`assets`) and text helpers (`text`).
- `app/` is ordinary Rust around it: reading files, TOML, layout with
  Taffy, text shaping with cosmic-text and painting with tiny-skia.
- `tests/` runs the library on concrete values.
