# fieldcad-desktop

The state, rules and text behind the panels of a field-simulation workbench, as a
verified library, and the egui panels that draw it.

- `src/` is the library. Every panel is a set of functions from what is shown and
  what the user did to what is asked for next: a command for the simulation, a
  request to the application, or a change of the user interface's own state. The
  functions carry contracts that Verus proves. Numbers are held by their binary64
  bit patterns and compared as such.
- `tests/` runs the library on concrete scenes.
- `app/` holds the egui panels and the file of reusable constants. What only the
  simulation, expression and catalog crates can answer reaches the panels through
  the traits of `app/host.rs`.
