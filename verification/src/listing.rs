//! Where the forge lists the repositories of an account.

use vstd::prelude::*;
use vstd::string::StringExecFns;

verus! {

/// The media type that the listing is asked for in.
pub const ACCEPT: &'static str = "application/json";

/// The name under which the listing is requested.
pub const USER_AGENT: &'static str = "Coderberg-Repo-Hoarder";

/// The address of the listing of `target`'s repositories: under `orgs`
/// for an organization, under `users` for a user. The name is put into
/// the address as it comes.
pub open spec fn listing_address(target: Seq<char>, is_org: bool) -> Seq<char> {
    if is_org {
        "https://codeberg.org/api/v1/orgs/"@ + target + "/repos"@
    } else {
        "https://codeberg.org/api/v1/users/"@ + target + "/repos"@
    }
}

/// The address to request the listing of `target`'s repositories from.
pub fn listing_url(target: &str, is_org: bool) -> (url: String)
    ensures
        url@ == listing_address(target@, is_org),
{
    let mut url = if is_org {
        String::from_str("https://codeberg.org/api/v1/orgs/")
    } else {
        String::from_str("https://codeberg.org/api/v1/users/")
    };
    url.append(target);
    url.append("/repos");
    url
}

} // verus!
