# xtrooder

The verified core of a 3D-printer firmware, written in Verus.

- `src/` is the library. Every function in it carries a contract that
  Verus proves: G-code reading (`gcode`, `parser`, `number`, `text`), AT
  command serialisation (`at`), FAT file-system arithmetic, on-disk
  formats and operation steps (`fat`, `dir`, `dirwrite`, `clusters`,
  `mkdir`, `filerw`, `volume`, `handles`), stepper, fan and planner bookkeeping (`stepper`, `fan`,
  `planner`), and small value types (`units`, `vector`, `computable`,
  `stopwatch`, `common`). The fixed-capacity collections of `heapless` and
  the byte-order helpers of `byteorder` are reached through a few trusted
  wrappers in `bounded`, `handles` and `fat`.
- `tests/` exercises the library on concrete values.
- `app/` holds what stays outside the proofs: floating-point motion and
  temperature math, conversions to physical quantities, the timed
  drivers of the steppers and the head's moves, and the block-device side of
  the file system, which reads and writes blocks and asks the library what
  to do next.

Stepper positions are counted in sixteenths of a full step, so that every
stepping mode moves the shaft by a whole number of units.
