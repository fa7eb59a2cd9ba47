//! The registry's endpoints: where the summary list and each detail record
//! are read, and which responses count as successful.
use vstd::prelude::*;

use crate::options::{decimal, to_decimal};

verus! {

/// The base of the registry's public read-only interface.
pub const BASE_URL: &'static str = "https://pub.orcid.org/v3.0";

/// The summary list of an owner's works: `{base}/{id}/works`.
pub open spec fn works_url_of(id: Seq<char>) -> Seq<char> {
    BASE_URL@ + "/"@ + id + "/works"@
}

/// One detail record: `{base}/{id}/work/{putcode}`.
pub open spec fn work_detail_url_of(id: Seq<char>, put_code: u64) -> Seq<char> {
    BASE_URL@ + "/"@ + id + "/work/"@ + decimal(put_code as nat)
}

/// The address of an owner's summary list.
pub fn works_url(id: &str) -> (r: String)
    ensures
        r@ == works_url_of(id@),
{
    let mut url = String::from_str(BASE_URL);
    url.append("/");
    url.append(id);
    url.append("/works");
    url
}

/// The address of one detail record of an owner.
pub fn work_detail_url(id: &str, put_code: u64) -> (r: String)
    ensures
        r@ == work_detail_url_of(id@, put_code),
{
    let mut url = String::from_str(BASE_URL);
    url.append("/");
    url.append(id);
    url.append("/work/");
    let digits = to_decimal(put_code);
    url.append(digits.as_str());
    url
}

/// Whether an HTTP status is a success (2xx); any other status is a
/// transport error that carries the status and the response body.
pub fn is_success_status(status: u16) -> (r: bool)
    ensures
        r == (200 <= status && status <= 299),
{
    200 <= status && status <= 299
}

} // verus!
