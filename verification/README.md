# exp_rs

A verified expression engine: a lexer and Pratt parser for mathematical expressions,
evaluation contexts with variables, constants, arrays, attributes, native and expression
functions, a recursive evaluator, batches of expressions evaluated with shared parameters
under the rules and limits of an explicit-stack evaluator, and a pool of arenas.

Numbers are handled as the bits of `f64` values. Everything that needs floating point
(native functions, reading number literals, turning a number into an array index) is
supplied by the caller as a function; the library's contracts hold for every such function
that answers deterministically.

## Layout

- `src/` — the library, verified with Verus:
  - `lexer.rs`, `engine.rs`: tokens and parsing, each stated against a specification of
    the grammar;
  - `context.rs`, `maps.rs`, `validation.rs`: evaluation contexts, their tables, and the
    checks made before an expression function is registered;
  - `eval.rs`: the evaluator of `interp` and `eval_ast`, stated against `eval_spec`;
  - `batch_eval.rs`: the evaluator of batches, stated against `batch_eval_spec`, which counts
    the operations waiting on the evaluation's stack and the contexts of the calls under way;
  - `batch.rs`: `BatchBuilder`, `Expression` and `ArenaBatchBuilder`;
  - `arena_pool.rs`, `c_api.rs` (error buffers, parameter lists, arena sizes), `stack_ops.rs`, `error.rs`, `types.rs`;
  - `laws.rs`: properties that relate several operations.
- `tests/` — tests run against the compiled library.
- `app/` — floating-point evaluation (`real.rs`, `functions.rs`) and the C interface
  (`ffi.rs`), built on the library.
