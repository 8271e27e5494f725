# rock_lib

A verified library for the Rock language toolchain, written in
Verus.

- `src/matching.rs`, `src/subst.rs`, `src/normalize.rs`: method selection's
  matching of receiver and type patterns (contravariant function parameters,
  safe callables for unsafe slots, higher-kinded constructor sections,
  bounded blanket impls), with the laws in `src/matching_laws.rs`.
- `src/do_expr.rs`: `do` notation. Each block is checked for control flow
  that would leave it and expanded into ordinary `bind` calls and callbacks
  inside a `match true`, which keeps the written entries for formatting.
- `src/lexer.rs`, `src/parser.rs`, `src/fmt.rs`: the surface syntax that the
  `do` notation lives in, and its printer.
- `src/callable.rs`, `src/bindings.rs`: calls of function values through the
  callable protocols (`Fn`, `FnMut`, `FnOnce`): native signatures, argument
  packing, the native adapter, protocol member selection, and inference of
  generalized method type arguments.
- `src/value_call.rs`, `src/callable_instance.rs`, `src/callable_lowering.rs`,
  `src/mono_bounds.rs`: the parts of type checking, lowering and
  monomorphization that decide how a call of a value is resolved. Each is a
  step function: type inference starts it, performs each request it
  receives (resolving and unifying types, fresh inference variables,
  rendering messages) and answers it, until the step function hands back
  the result. `src/type_vars.rs` holds the inference variables of a type and
  their replacement.
- `src/project.rs`: project names and the files of a new project.
- `app/main.rs`: the `rock` command line; it creates project directories
  and files.
- `tests/`: scenarios and concrete instances of the laws.
