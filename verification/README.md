# planner_core

The core of a drone flight planner for the Robolink CoDrone EDU: command
types and their names in plan files, the Python line each command becomes,
variable substitution for the plan's expressions (over a small JavaScript
regular-expression engine), the lexical layer of the expression evaluator,
CSV and OBJ obstacle files, CSS colours, and the state of the editor's panels.
Everything under `src/` is verified with Verus: each public function states
what it returns, and the laws that relate functions are proof functions
named `law_*`.

Layout:

- `src/commands.rs`: command types, names, blocks, the command table (labels, parameter
  schemas and defaults, block flags, templates), LED colours, sway directions.
- `src/codegen.rs`: the Python line of each template over its parameters' text.
- `src/sim/regex.rs`: the pattern parser, the backtracking matcher, global replacement.
- `src/sim/runtime.rs`: substitution of variables, JSON text of strings.
- `src/sim/expr.rs`: whitespace, identifiers, string and number literals.
- `src/sim/grammar.rs`: the expression grammar, read into postfix operations.
- `src/sim/controlflow.rs`: interpreter limits, function keys, the table of user functions.
- `src/obstacles.rs`: CSV rows and fields, OBJ lines, obstacle type names, which imported
  obstacles are kept and how they are named, where JSON and GeoJSON documents hold them.
- `src/color.rs`: CSS colour names, `#` notations and functions, the scene signature.
- `src/ui.rs`: panel state, categories, the command palette, console tones,
  the marked code line, command summaries, drone swatches, fresh numbered names.
- `src/text.rs`: Unicode properties from std and verified string helpers.
- `tests/`: tests of the library on concrete values.
- `app/`: the desktop program (eframe/egui): flight physics, the simulator,
  obstacle geometry and importers, plan files, and the window. These work in
  floating point or do I/O, so they are ordinary Rust around the library.
