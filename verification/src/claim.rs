//! Brand claim and product name: trade dress, never translated.
use vstd::prelude::*;

verus! {

/// The product name as it appears on every surface.
pub const PRODUCT_NAME: &'static str = "Convergio";

/// The one-line claim.
pub const CLAIM: &'static str = "Make machines prove it.";

/// The subline that expands the claim.
pub const SUBLINE: &'static str = "The machine that builds machines — and proves they work.";

} // verus!
