# loom

A retained mode GUI layout engine: a tree of widgets and a container size go
in, and every node comes out with the pixel rectangle of its border box.

- `src/` is the verified library. The widget tree is generic over its style and
  rectangle types, and everything proved there is about structure: the node
  constructors and builders, preorder id numbering (`assign_ids`), the deepest
  last match of a hit test and the path to it (`event`), the preorder draw calls
  handed to a `Renderer` (`render`), the default style, and the projection of
  edges and dimensions onto the main and cross axes of a row or a column
  (`style`).
- `app/` is a library over `f64` pixels with its command line tool in
  `app/cli.rs`: the flexbox solver (`layout.rs`), rectangle and inset
  arithmetic, text measurement, and the containment test that marks the tree
  handed to the verified hit search. Its golden, invariant and unit tests of
  the solver are kept beside it as `#[cfg(test)]` modules of `app/`; they are
  not part of the verified library's test suite in `tests/`.
