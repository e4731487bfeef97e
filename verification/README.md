# raytracer

A ray tracer that reads scenes from XML files and renders them to PPM or PNG images.

The crate is split in two:

- `src/` is the verified library. It holds what the renderer decides with integers and
  text: the scene-file bookkeeping of materials, graphics states and transforms
  (`api`), the reading of integer, boolean and color attributes (`text`, `dto`), the
  gamma table and 8-bit colors (`color`), the dithering thresholds (`dithering`), the
  image encoders (`image`), the index lists of triangle meshes (`mesh`) and the
  flattened bounding-volume hierarchy with its traversal order (`bvh`). Every function
  carries a contract, and the `law_*` proof functions state what holds across calls.
- `app/` is the program around it: argument handling, file reading and writing, and
  all floating-point work (geometry, cameras, lights, materials, shading and the
  choice of hierarchy splits).

Run it with the path of a scene file as its argument.

Named materials are kept in `MaterialLib` as a list of `(name, index)` pairs, each name at
most once, rather than in a `HashMap<String, usize>`: Verus's specification of `HashMap`
proves nothing about lookups with `String` keys, so the list is what lets the lookup
contract (`get` returns what the last `insert` of the name wrote) be proved.
