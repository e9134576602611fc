# gear_core

The exact, integer-valued logic of a gear design toolkit, verified with Verus:
every public function in `src/` carries a contract over a mathematical model of
its inputs and result, and the laws the toolkit promises across functions are
public proof functions beside them.

- `hula` — the hula drive's four tooth counts: which member of each pair is the
  ring, the reduction as the two integer products it is written in, the drive
  asked for by one count, and the shaper each ring is cut with.
- `jgma` — reading the composite-error table, and looking a class up in it:
  which classes it offers, in order, and the default among them.
- `gear`, `auto`, `note` — which teeth a cut alters and why, each reason once;
  which numbers of a search are free, and how a search fills only those.
- `contact` — answers asked in both directions of a mesh, and how a refused
  direction is named.
- `matrix` — the bending models compared, and the design populations they are
  compared over.
- `kinematics` — how the kinematics record names bodies, slots and members,
  the fixtures it records and which of them a run selects.
- `commands` — the command-line table, its dispatch, its help and the golden
  cases it records.
- `text` — decimal digits, written and read back, and the fixed-point numbers
  the table is written in.

`app/` is the command-line harness around the library: argument handling,
printing, and the floating-point geometry that the library does not hold.
