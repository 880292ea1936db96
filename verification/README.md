# fp_bindgen

A library for generating bindings between WebAssembly plugins and their
runtimes: from a protocol of imported and exported functions and the data
types they pass, it writes a Rust plugin crate, a TypeScript runtime and a
Rust runtime on Wasmer (with or without WASI). The
library is written in Verus; each public function carries a contract that
Verus proves.

## Layout

- `src/` is the verified library.
  - `types/` models the data types of a protocol: identifiers
    (`TypeIdent`, read from text or from a type as written in Rust source),
    structs, enums and their Serde-facing attributes, custom types with the
    Cargo dependencies they bring, and the `TypeMap` that maps identifiers
    to types.
  - `types/attr_tokens.rs` reads the `key = "value"` entries of `#[fp(...)]`
    and `#[serde(...)]` attributes from the text of their tokens.
  - `types/items.rs` reads struct and enum items from their syntax, and
    says why an item cannot be read; `functions.rs` does the same for
    function declarations.
  - `resolved.rs` and `resolved_items.rs` hold the types described by their
    resolved definitions, and read struct and enum items into them.
  - `functions.rs` holds protocol functions and the name-ordered
    `FunctionList`.
  - `generators/` writes the bindings: the Rust plugin crate
    (`rust_plugin.rs`), the TypeScript runtime (`ts_runtime.rs`), the parts
    of the Wasmer runtime (`rust_wasmer_runtime.rs`: which value crosses the
    boundary as a fat pointer, which is serialized, what each wrapper does
    with its result), and the warnings about custom serializers (`mod.rs`).
  - `serializable.rs` gives the standard types their identifiers and type
    definitions, and `compat.rs` those of `bytes`, `http`, `time`,
    `serde_json` and `url`.
  - `support.rs` holds the plain-value parts of the runtime support: fat
    pointers, async values, host futures, the ABI of primitives and the task
    queue.
  - `casing.rs`, `primitives.rs`, `generics.rs` and `text.rs` hold casing,
    primitive types, generic names and the string handling the rest uses.
- `tests/` runs the library on concrete protocols.
- `app/` reads Rust source with `syn`, writes the generated files, renders
  the Wasmer runtime's parts into token streams with `quote`, and holds the
  Serde and `thiserror` forms of the library's types.
