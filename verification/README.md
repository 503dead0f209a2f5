# sad_xml_sql

Software architecture documents (SAD) kept as XML: the library reads a
document's records from its XML, stores them in an in-memory SQLite
database, answers the queries that the tools ask of it, writes the database
back out as XML, renders the document as Markdown with Mermaid diagrams, and
holds the state machines of the terminal editor. The library's logic is
verified with Verus against its contracts; the calls into `rusqlite`,
`xmltree`, `simple-xml-builder`, `tui-textarea`, `ratatui` and `std` that it
makes stand behind small trusted wrappers whose contracts state what those
crates do.

Layout:

- `src/` the verified library.
  - `models`, `md_models`: the records of a document (the editor's and the
    renderer's tables).
  - `db`, `md_db`: the SQLite tables, as multisets of rows, and the calls
    that create, fill and read them.
  - `xml`, `populate`, `md_populate`, `address`: reading records from the
    parsed XML; `dump`: the XML written back.
  - `queries`, `order`, `retrieval`, `md_retrieval`, `update`: the queries,
    stable ordering, and the changes made in place.
  - `text`, `md_text`, `md_render`: numerals, collations, section numbers,
    link texts, and the Markdown document.
  - `menu`, `work_state`, `work`, `text_area`, `component_editor`,
    `viewpacket_editor`: the terminal editor's state and what each key does.
- `tests/` tests of the library.
- `app/` the command-line programs: `sad <file.xml>` writes
  `Architecture.md`; `sad tui [file.xml]` runs the terminal editor.
