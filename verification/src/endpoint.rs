//! The remote service: where it is, and when it has answered with success.

use vstd::prelude::*;
use vstd::string::StringExecFns;

verus! {

/// Where the manifest is fetched from. The files themselves are found below it.
pub const MANIFEST_URL: &'static str = "https://mods.farmlandefficiency.co.nz/mods";

/// Whether a response status counts as success: the statuses from 200 to 299.
pub open spec fn is_success_status(status: u16) -> bool {
    200 <= status < 300
}

/// Whether a response status counts as success.
pub fn is_success(status: u16) -> (ok: bool)
    ensures
        ok == is_success_status(status),
{
    200 <= status && status < 300
}

/// The address of the file `name`: the manifest's address, a slash, and the name.
pub open spec fn url_of(name: Seq<char>) -> Seq<char> {
    MANIFEST_URL@ + seq!['/'] + name
}

/// The address from which the file `name` is downloaded.
pub fn download_url(name: &str) -> (url: String)
    ensures
        url@ == url_of(name@),
{
    let mut url = String::from_str(MANIFEST_URL);
    url.append("/");
    proof {
        reveal_strlit("/");
        assert("/"@ =~= seq!['/']);
    }
    url.append(name);
    url
}

} // verus!
