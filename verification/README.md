# Mermaid Quicklook

Preview Mermaid diagrams in Zed: open a `.mmd` file, run *Open Mermaid Preview*, and the diagram
opens as an image tab beside the source. Every save re-renders it in place. Source files are never
modified: a preview or an export that would replace its own source is refused.

The crate is a library whose logic is verified with [Verus](https://github.com/verus-lang/verus),
and a language server around it.

| Module | What it holds |
| --- | --- |
| `text`, `numeral`, `path` | Lines and white space, numerals, Unix paths as bytes |
| `diagram` | Diagram sources and the renderer's diagnostics |
| `uri`, `preview`, `base` | From a document's URI to the place of its preview |
| `render`, `serial` | The course of one render, as a state machine, and what tells renders apart |
| `opening` | The course of opening a preview, as a state machine |
| `export` | Where a diagram is exported to, and which export is refused |
| `slots`, `refresh` | Coordination of the renders behind saves, and the course of one |
| `server`, `uri_set`, `command` | Open documents, notifications, requests and commands |
| `extension` | How the editor starts the server |

`app/` performs what the library decides: it speaks the language server protocol, touches files,
runs `mmdc` and opens images.
