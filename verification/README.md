# RustFoil

A library for the analysis of airfoils: outlines and what is done to them, the boundary
layer that is marched along their surfaces, and the Newton iteration that couples it with
the outer flow. Every function states in its contract what it returns, and Verus proves it.

## Layout

- `src/number.rs`: the number type that everything is computed with, and its helpers.
  Contracts are terms over its operators, in the order in which they are applied.
- `src/elementary.rs`, `src/callable.rs`, `src/closure.rs`: functions that the caller hands
  in, such as the square root, or the closure relations of the boundary layer.
- `src/station.rs`: a station of the boundary layer, and the influence matrix.
- `src/march/`: marches along a surface, with prescribed velocity or coupled.
- `src/global_newton/`: the system of both surfaces, its solution, and the update.
- `src/viscal/`: the viscous solution over one surface and over two.
- `src/airfoil/`: sections, panel spacing, changes of an outline, morphs, and what is shown
  of an analysis.
- `src/exact/`: laws for number types that do not round, such as that the global solution
  satisfies every equation.
- `app/`: the interfaces for JavaScript and Python.
- `tests/`: tests, on `f64` and on rational numbers.
