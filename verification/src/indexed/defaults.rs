//! The product's built-in client properties for the indexed pipeline.

use crate::indexed::properties::{builtin4, defaults4_views, Defaults};
use vstd::prelude::*;

verus! {

/// The product's built-in client properties.
pub fn product_defaults() -> (r: Defaults)
    ensures
        defaults4_views(r) == builtin4(),
{
    Defaults::builtin()
}

} // verus!
