use vstd::prelude::*;

verus! {

// The safe functions of the bundled analysis targets: a taint source, a
// sanitizer and a sink, and a struct filled through a mutable reference. They
// are the values a taint analysis follows between unsafe regions.

/// The value the taint-flow samples read from their source.
pub const SOURCE_VALUE: u32 = 42;

/// Produces the tainted value.
pub fn source() -> (r: u32)
    ensures
        r == SOURCE_VALUE,
{
    SOURCE_VALUE
}

/// Passes a value through unchanged; an analysis treats what comes out as clean.
pub fn sanitize(source: u32) -> (r: u32)
    ensures
        r == source,
{
    source
}

/// Consumes a value and hands it back.
pub fn sink(value: u32) -> (r: u32)
    ensures
        r == value,
{
    value
}

/// A struct with a scalar field and an array field.
pub struct Foo {
    pub x: u32,
    pub y: [u32; 16],
}

impl Foo {
    /// All fields zero.
    pub fn new() -> (r: Foo)
        ensures
            r.x == 0,
            forall|i: int| 0 <= i < 16 ==> r.y@[i] == 0,
    {
        Foo { x: 0, y: [0; 16] }
    }
}

/// Writes `x` into `f.x` and `y0` into the first element of `f.y`.
pub fn bar(f: &mut Foo, x: u32, y0: u32)
    ensures
        final(f).x == x,
        final(f).y@ == old(f).y@.update(0, y0),
{
    f.x = x;
    f.y.set(0, y0);
}

} // verus!
