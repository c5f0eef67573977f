# monkey_interpreter

An evaluator for the Monkey programming language, verified with Verus.

Programs are given as syntax trees (`ast`); this crate holds no parser.

## Layout

- `src/ast.rs` — the syntax tree, its mathematical model (`Expr`, `Stmt`),
  and verified copying and comparison.
- `src/object.rs` — runtime objects and their model (`Value`), `is_truthy`,
  `get_infix_ints`.
- `src/environment.rs` — bindings of names to objects: `Store`, `Root`,
  `Nested`, `Environment`, and the `Env` trait. The model of an environment
  is its list of scopes, innermost first.
- `src/error.rs` — errors of the language and faults (where evaluation
  cannot go on: division by zero, overflow, asking the truth of a function;
  and calls nested `MAX_CALL_DEPTH` deep, the largest `u64`, which no
  machine's stack reaches).
- `src/semantics.rs` — the meaning of programs as spec functions.
- `src/evaluator.rs` — the evaluator, proved to compute exactly what
  `semantics` describes.
- `src/laws.rs` — properties of the language, proved.
- `src/text.rs` — how objects, errors and syntax trees are written out.
- `app/lib.rs` — the read-eval-print loop; it takes the parser as an argument.
