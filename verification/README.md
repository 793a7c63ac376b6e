# arto

The verified core of a desktop Markdown viewer, written in Verus.

- `src/` is the library, verified except for the small `external_body`
  wrappers through which it calls outside crates (pulldown-cmark,
  serde_yaml, lol_html, base64, sha2, html-escape, serde_json) and a few
  std functions; their contracts are trusted. It covers Markdown rendering
  (GitHub alerts, YAML frontmatter, heading anchors, Mermaid and math
  blocks, post-processing decisions for images and links), bookmarks,
  navigation history, tabs and the sidebar, drag and preview-window state,
  context menus, window ids and pages, and image save/copy planning.
- `app/` is a small command-line program around it: reading files and
  inlining local images, downloading, the clipboard, and the settings
  files.
- `tests/` runs the library on concrete values.
