# wat_service

The analysis core of a language service for the WebAssembly text format,
verified with Verus.

## Layout

- `src/syntax.rs` — the syntax tree the service works on (kinds, ranges,
  nodes and tokens), with spec functions that describe lookups in it.
- `src/bind.rs`, `src/binder.rs` — building the symbol table of a document
  (definitions, references and what each reference resolves to) and queries
  on it: definitions, declarations by index space, references.
- `src/cfa.rs` — control-flow graphs of function bodies; `cfg_of` states
  the whole graph a body gives, edges and reachability included.
- `src/checker/` — the diagnostics: each checker states, as a spec
  function, exactly which reports it produces, and proves its code against
  it. `walk.rs` decides which checker runs on which node and `order.rs` puts
  the reports in order. `typeck.rs` walks the instructions of functions,
  globals, tables, offsets and element lists with an operand stack.
  `type_misuse.rs` checks that type indices name definitions of the right
  kind and that `on` clauses fit their tags. `def_type.rs` checks that block,
  tag, continuation and start types are function types, that element
  segments fit their tables, that `br_table` branches agree, that catch
  clauses fit their labels, that `get`s fit the packing of their field or
  array, and that `*.new_default` makes a type with a default value.
  `mutation.rs` reports setting an immutable global, array or field, and
  `mut` that nothing needs, and `subtyping.rs` that super types come
  earlier, are not final and match. These take what the type and mutability
  analyses decide (signatures, whether two types match, how types read,
  which definitions are mutable and which instructions set them) as
  arguments.
- `src/document.rs`, `src/service.rs` — open documents, incremental edits and
  the per-document configuration.
- `src/deprecation.rs`, `src/exports.rs`, `src/data_set/` — deprecation
  annotations, exports of each module, and instruction metadata.
- `src/text.rs`, `src/idx.rs`, `src/config.rs` — text utilities (number
  literals, decimal rendering), indices and configuration values.
- `tests/` — tests on concrete documents.
- `app/` — the protocol side: reading configuration with serde, converting
  positions with `line-index`, driving the document lifecycle, and sending
  the diagnostics of a document.

Not here: the type and mutability analyses themselves, and the checkers
that need more of them than these arguments give: casts, and the type
agreements of the other branching and calling instructions.

Properties that span several functions are stated as public proof
functions whose names start with `law_`.
