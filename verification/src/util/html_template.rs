//! Rendering pages.

use vstd::prelude::*;

use super::text::concat;

verus! {

/// The body of the error response sent when a page template fails to render,
/// given the renderer's error as text.
pub fn render_failure_body(error: &str) -> (r: String)
    ensures
        r@ == "Failed to render template. Error: "@ + error@,
{
    concat("Failed to render template. Error: ", error)
}

} // verus!
