# eui_neo_rust

A retained-mode UI toolkit core, verified with Verus, and the window program
around it.

## Layout

- `src/` — the verified library.
  - `color`, `types`, `easing`, `theme`, `theme_tokens`: colors (channels kept as
    their binary32 encodings), gradients, render layers, the light and dark themes
    and their tokens.
  - `ui/node`: compose tracking shared by every node (stamps, the FNV-1a build
    hash, cache and recompose flags) and the node enum.
  - `ui/builders`, `ui/context`: the builders that configure nodes, and the
    context that keeps the node registry, runs compose passes, applies the clip
    to the nodes it places, registers built nodes with the open layout, prunes
    nodes not composed in a pass and orders the rest for drawing.
  - `ui/registry`, `ui/draw_order`: the registry as a map from keys to nodes, and
    the stable sort by render layer and z-index, with its uniqueness.
  - `components`: node configurations and their input steps (text field editing,
    dropdown and segmented selection).
  - `pages`: the main page's selection and form state, the accent generator,
    and the pages' fixed texts.
  - `debug/dump`: JSON string escaping for the draw dump.
- `app/` — the program: GLFW window and events, the OpenGL renderer and font
  atlas (fontdue), floating-point styles and layout, immediate-mode drawing of
  the main page, and the JSON draw dump.
- `tests/` — tests of the library.
