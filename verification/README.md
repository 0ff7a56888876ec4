# redidl

The RedLeaf IDL compiler: interface files are Rust modules whose cross-domain
traits are marked `#[interface]` and whose domain-creation traits are marked
`#[domain_create]`. From them the compiler generates proxies, trampolines,
type identifiers, domain creates and the entry-point crates of domains.

The library in `src/` is written in Verus: every pass works on a model of the
parsed file (`ast.rs`, `ty.rs`) and states what it produces in its contract.

- `ty.rs`, `ast.rs`, `print.rs`, `copy.rs`: the syntax model, its views and
  its rendering as source text.
- `attrs.rs`, `text.rs`, `flat_map.rs`, `utils.rs`: attributes, strings,
  a small ordered map, helpers.
- `symbols.rs`, `resolve.rs`, `collect.rs`, `typeid.rs`: name resolution and
  the numbering of the types that cross domain boundaries.
- `path_refactoring.rs`, `proxy.rs`, `domain_create.rs`, `entrypoint.rs`,
  `generate.rs`: the code generators and the pass that runs them.
- `macros.rs`, `inject.rs`: what the procedural macros and the proxy
  generator's front end compute.
- `sanity.rs`, `preverify.rs`, `glue.rs`, `ir.rs`, `reject.rs`, `red_idl.rs`,
  `idl_types.rs`: the checks and intermediate forms of the older front ends,
  and the marker traits of exchangeable types.
- `idl_files.rs`: the names of the files of an IDL source tree and the
  choice of a directory's `mod.rs`.

`app/` holds the command-line front ends: it walks directories, parses files
with `syn`, converts them into the model, runs the library, and writes the
results, entry-point crates included. Run as
`redidl <input> <output> [--domain_create_output <file>]`, or with a first
argument `idlc`, `hidlc`, `codegen-proxy` or `red_idl` for the other tools.
