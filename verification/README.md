# auto_enumerate

The logic of the `#[auto_enum]` attribute, verified with Verus: given the
expression that the attribute is on, every branch that produces a value gets
that value wrapped in a new variant of one generated enum, so that branches of
different types can be returned as one type.

- `src/syntax.rs`: the syntax tree that the rewriting works on, and its
  mathematical view.
- `src/spec.rs`: what the rewriting does, as spec functions over the view.
- `src/expr.rs`: the rewriting itself (`child_expr`, `is_unreachable`, the walk
  of a loop's `break`s), proved to compute what `spec.rs` states.
- `src/context.rs`: the builder of the generated enum, which numbers its
  variants, and the marker macro.
- `src/laws.rs`, `src/variants.rs`: properties of the rewriting as a whole:
  it only wraps values, each wrapped value gets a variant of its own, and
  expressions that never produce a value are left alone.
- `src/derive.rs` and `src/derive/`: what the derives of `#[enum_derive]`
  (`DerefMut`, `BufRead`, `Extend`, `futures::Stream`) build.
- `src/utils.rs`: small helpers, errors, identifiers, the stack of derives.
- `app/lib.rs`: the glue to `syn` and `quote`, not verified.
