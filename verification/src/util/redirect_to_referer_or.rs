use vstd::prelude::*;
use vstd::string::*;

verus! {

/// Where to send the browser back to: the page it came from when the request
/// carried a `Referer`, otherwise the given fallback route.
pub fn redirect_to_referer_or(route: &str, referer: Option<&str>) -> (location: String)
    ensures
        location@ == match referer {
            Some(r) => r@,
            None => route@,
        },
{
    match referer {
        Some(r) => String::from_str(r),
        None => String::from_str(route),
    }
}

} // verus!
