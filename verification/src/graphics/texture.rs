//! The checks on the size of a texture.

use vstd::prelude::*;

verus! {

/// What can be wrong with the size of a texture
#[derive(Clone, Copy, Debug, PartialEq, Eq, Structural)]
pub enum Error {
    /// The width is negative
    BadWidth(i32),
    /// The height is negative
    BadHeight(i32),
}

/// Checks the size of a texture: neither the width nor the height may be
/// negative
pub fn check_size(width: i32, height: i32) -> (r: Result<(), Error>)
    ensures
        r == (if width < 0 {
            Err::<(), Error>(Error::BadWidth(width))
        } else if height < 0 {
            Err(Error::BadHeight(height))
        } else {
            Ok(())
        }),
{
    if width < 0 {
        Err(Error::BadWidth(width))
    } else if height < 0 {
        Err(Error::BadHeight(height))
    } else {
        Ok(())
    }
}

} // verus!
