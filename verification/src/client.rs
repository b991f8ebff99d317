//! The kinds of requests the catalog API distinguishes; each is
//! authorized with a differently assembled header.
use vstd::prelude::*;

verus! {

/// Which authorization a catalog request carries: asking for a request
/// token, posting for an access token, or a plain authorized request.
pub enum RequestType {
    RequestURL,
    PostAccess,
    RequestAuthorized,
}

} // verus!
