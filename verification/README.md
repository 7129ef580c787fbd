# whitenoise

Static property propagation for differentially private analysis graphs,
verified with Verus.

Every node of an analysis graph carries properties of the data it produces:
its shape, nullity, releasability, nature (bounds or categories) and
stability.  The library derives the properties of the arithmetic, logical and
comparison transforms from those of their arguments, expands the
differentially private histogram into a binning component and a count, and
adds drawn noise to integer data.

- `src/error.rs`: the reasons a property cannot be derived.
- `src/properties.rs`: the property types, their views, and categories
  (stretching to a number of columns, removing repeats).
- `src/operators.rs`: the integer, boolean and string operators, with checked
  arithmetic.
- `src/columns.rs`: column-wise traversals of categories and bounds.
- `src/transforms.rs`: broadcasting, the shape of binary transforms, and the
  nature of the output of unary and binary transforms.
- `src/components.rs`: the transforms themselves, and laws relating them.
- `src/dp_histogram.rs`: the expansion of the histogram.
- `src/mechanisms.rs`: noise added to integer data, column by column.

Floating-point values never appear in `src/`: the element type of float
properties is a parameter, and every operation on it is a closure of the
caller.  `app/` supplies those closures for `f64`.
