# skeravar

The parts of a variable font subsetter that do the arithmetic and make the decisions, verified with
Verus:

* Deltas for the points of simple glyphs and the component offsets of composite glyphs at a location
  in the design space, from the tuples of a `gvar` table. Deltas that sparse tuples leave out are
  inferred contour by contour.
* Subsetting of GPOS value records: which fields are worth keeping, what is written for each, and
  which variation indices a record refers to.

`src/` is the verified library. Its functions state in their contracts what they return; functions
whose names start with `law_` state what holds across several of them. `app/` puts the library on
the types of the font crates: single precision coordinates, whose scalars are computed in double
precision and narrowed once, and a driver that writes value records through a serializer. `tests/`
runs the library.

Reading font tables is left to `skrifa` and `write-fonts`. The functions marked
`#[verifier::external_body]` call them, and their contracts are taken on trust.
