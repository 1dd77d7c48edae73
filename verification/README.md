# trace-weaver

A static, column-level data-lineage compiler for Airflow DAGs. It reads Python
pipeline code without running it, recovers which columns feed which, and writes
the result as one document that goes to OpenMetadata, OpenLineage or Graphviz.

Every fact in a document carries its provenance: declared by an engineer,
inferred from SQL, or inferred from code. A column that the code sets, or makes
by an operation on a frame that the library knows, is traced or reported.

## Layout

- `src/` is the library, verified with Verus.
  - `text`, `collections`, `source`, `paths`, `clock`, `json`: plain building
    blocks, specified over `Seq<char>`, `Set` and `Map`.
  - `model`, `origin`, `graph`, `validate`: the document, its graph and its
    checks.
  - `pyast`, `sqlast`: the trees of the two parsers, taken over into plain data.
  - `sql`, `flow`, `dataflow`: column lineage of SQL texts and of data-frame code.
    `flow` holds the model of the analysis and `dataflow` the analysis.
  - `decls`, `python`: task declarations. `decls` holds the model and `python`
    the extraction.
  - `columns`, `infer`, `tasks`, `scan`, `finish`: from declarations to a
    document.
  - `wellformed`: what holds of every scanned document.
  - `export`, `dot`, `openlineage`, `openmetadata`: the exporters.
  - `gate`, `console`: metrics for continuous integration, and what the command
    line says.
  - `resolve`: the seam for resolving spots that could not be traced.
- `app/` is the `trace-weaver` program: arguments, files, HTTP and JSON on disk.
- `tests/` runs the library.

## What is proved

Each public function states exactly what it returns, over a model of its data.
Functions that call the Python parser, the SQL parser or `serde_json` rest on
contracts that are stated next to the call and are not proved.

Beyond that, the library proves properties that span functions, as public proof
functions next to what they speak of. Some of them: declared mappings are never
overridden; every statement that sets a column, and every operation that makes
some, is traced or noted; deriving edges twice adds nothing; the order of edges is a
sorted permutation that respects dependencies and ignores insertion order;
a scanned document names each dataset once and has no dangling edge; a file that
cannot be parsed alters nothing of a scan but for the error about it; column
discovery changes no coverage figure; every edge is accounted for in an export.
