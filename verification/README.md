# lens

A Markdown and PlantUML viewer for repositories, written in Verus. The verified library under
`src/` holds the viewer's logic with contracts proved by Verus; `app/` is the command-line
program around it (argument handling, the file system, sockets, HTTP and the browser).

## Layout

- `src/text.rs`, `src/paths.rs`, `src/identifiers.rs`: characters, `/`-separated paths and
  identifier order, with their specifications and lemmas.
- `src/target.rs`: how a target becomes a set of documents: what is discovered, the document
  root, the first document, and the invariant of a loaded target.
- `src/frontmatter.rs`, `src/metadata.rs`, `src/events.rs`, `src/markdown.rs`: rendering a
  document: the YAML header as metadata, the Markdown events (parsed and written by
  pulldown-cmark, modelled as plain values), PlantUML fences as diagram figures, links to known
  documents as viewer routes and links to source files as VS Code links.
- `src/plantuml.rs`: the PlantUML server and the encoding of diagram URLs.
- `src/source_link.rs`: which links lead to source files, and their VS Code URLs.
- `src/service/`: the background service: its framed protocol, the endpoint checks, the request
  ledger and the controller state machine with its laws, the client's and server's decisions.
- `src/viewer/`: the viewing session: pages, the catalog, navigation, diagram fetching and the
  session state.

Paths are handled in their `/`-separated form, as on Linux.

Calls into outside crates (pulldown-cmark, serde_yaml, flate2, indexmap, getrandom,
form_urlencoded, percent-encoding) stand behind small trusted wrappers whose contracts state
what those crates document.
