//! The checks on the data of a buffer of indexed triangles.

use vstd::prelude::*;

verus! {

/// What can be wrong with the data of a buffer of indexed triangles
#[derive(Clone, Copy, Debug, PartialEq, Eq, Structural)]
pub enum Error {
    /// The number of values is not a multiple of the number of values of
    /// one vertex
    BadCoordinateCount,
    /// The number of indices is not a multiple of three
    BadIndexCount,
    /// An index leads to no vertex
    BadIndex,
}

/// Whether an index leads to a vertex: the values of the vertex start inside
/// the buffer.
pub open spec fn leads_to_vertex(index: usize, step: int, value_count: int) -> bool {
    index * step < value_count
}

/// What is wrong with the data, if anything: the first of the three checks
/// that fails.
pub open spec fn verdict(value_count: int, step: int, indices: Seq<usize>) -> Result<(), Error> {
    if value_count % step != 0 {
        Err(Error::BadCoordinateCount)
    } else if indices.len() % 3 != 0 {
        Err(Error::BadIndexCount)
    } else if exists|i: int|
        0 <= i < indices.len() && !leads_to_vertex(#[trigger] indices[i], step, value_count) {
        Err(Error::BadIndex)
    } else {
        Ok(())
    }
}

/// Checks the data of a buffer of indexed triangles: `value_count` values,
/// of which each vertex has `vertex_len` for its place and `color_len` for
/// its color, and the indices of the vertices of the triangles
pub fn validate(
    value_count: usize,
    vertex_len: usize,
    color_len: usize,
    indices: &Vec<usize>,
) -> (r: Result<(), Error>)
    requires
        0 < vertex_len + color_len <= usize::MAX,
    ensures
        r == verdict(value_count as int, vertex_len + color_len, indices@),
{
    let step = color_len + vertex_len;
    if value_count % step != 0 {
        Err(Error::BadCoordinateCount)
    } else if indices.len() % 3 != 0 {
        Err(Error::BadIndexCount)
    } else {
        let mut i: usize = 0;
        while i < indices.len()
            invariant
                i <= indices@.len(),
                step == vertex_len + color_len,
                step > 0,
                value_count as int % step as int == 0,
                indices@.len() % 3 == 0,
                forall|j: int|
                    0 <= j < i ==> leads_to_vertex(
                        #[trigger] indices@[j],
                        step as int,
                        value_count as int,
                    ),
            decreases indices@.len() - i,
        {
            let index = indices[i];
            assert(index * step <= 0xFFFF_FFFF_FFFF_FFFF * 0xFFFF_FFFF_FFFF_FFFF) by (
                nonlinear_arith)
                requires
                    0 <= index <= 0xFFFF_FFFF_FFFF_FFFF,
                    0 <= step <= 0xFFFF_FFFF_FFFF_FFFF,
            ;
            let start: u128 = (index as u128) * (step as u128);
            if start >= value_count as u128 {
                assert(!leads_to_vertex(indices@[i as int], step as int, value_count as int));
                return Err(Error::BadIndex);
            }
            i += 1;
        }
        Ok(())
    }
}

} // verus!
