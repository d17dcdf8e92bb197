//! Files that list routes.

use vstd::prelude::*;

use crate::route::plan_routes;
use crate::route::plan_view;
use crate::route::planned;
use crate::route::Gateways;
use crate::route::PlannedRoute;
use crate::text::texts;

verus! {

/// What `serde_json::from_str` makes of a document as a `Vec<String>`: the texts,
/// or what its error says.
pub uninterp spec fn json_read(data: Seq<char>) -> Result<Seq<Seq<char>>, Seq<char>>;

/// Whether a text stands between quotes in JSON as it is.
pub open spec fn is_plain(s: Seq<char>) -> bool {
    forall|i: int| 0 <= i < s.len() ==> ' ' <= #[trigger] s[i] && s[i] != '"' && s[i] != '\\'
}

/// Texts between quotes, with commas between them.
pub open spec fn quoted_list(items: Seq<Seq<char>>) -> Seq<char>
    decreases items.len(),
{
    if items.len() == 0 {
        Seq::empty()
    } else if items.len() == 1 {
        seq!['"'] + items[0] + seq!['"']
    } else {
        quoted_list(items.drop_last()) + seq![',', '"'] + items.last() + seq!['"']
    }
}

/// The shortest JSON array of plain texts.
pub open spec fn json_array(items: Seq<Seq<char>>) -> Seq<char> {
    seq!['['] + quoted_list(items) + seq![']']
}

/// Whether `data` is an array of the plain texts `items` in its shortest form.
pub open spec fn is_plain_array(data: Seq<char>, items: Seq<Seq<char>>) -> bool {
    data == json_array(items) && forall|i: int|
        0 <= i < items.len() ==> is_plain(#[trigger] items[i])
}

/// Calls `serde_json::from_str` for a `Vec<String>`, and `to_string` of its error.
/// Taken on trust: whether the document is an array of strings, which these are,
/// and what the error says, depends on its text alone, and an array of plain
/// texts in its shortest form gives these texts. What other documents give is
/// left unsaid.
#[verifier::external_body]
fn from_json(data: &str) -> (r: Result<Vec<String>, String>)
    ensures
        json_read(data@) == (match r {
            Ok(v) => Ok(texts(v@)),
            Err(reason) => Err(reason@),
        }),
        forall|items: Seq<Seq<char>>| #[trigger]
            is_plain_array(data@, items) ==> r is Ok && texts(r->Ok_0@) == items,
{
    match serde_json::from_str(data) {
        Ok(v) => Ok(v),
        Err(e) => Err(e.to_string()),
    }
}

/// A file that is no JSON array of strings, with the reason.
#[derive(Debug)]
pub struct RouteFileError {
    pub reason: String,
}

/// Reads the destinations that a file lists: a JSON array of IP/CIDR strings.
pub fn read_destinations(data: &str) -> (r: Result<Vec<String>, RouteFileError>)
    ensures
        json_read(data@) == (match r {
            Ok(v) => Ok(texts(v@)),
            Err(e) => Err(e.reason@),
        }),
        forall|items: Seq<Seq<char>>| #[trigger]
            is_plain_array(data@, items) ==> r is Ok && texts(r->Ok_0@) == items,
{
    match from_json(data) {
        Ok(v) => Ok(v),
        Err(reason) => Err(RouteFileError { reason }),
    }
}

/// The routes that a file asks for, in their order.
pub fn plan_file(data: &str, gateways: &Gateways, iface_name: &str) -> (r: Result<
    Vec<PlannedRoute>,
    RouteFileError,
>)
    ensures
        match json_read(data@) {
            Ok(dests) => r is Ok && plan_view(r->Ok_0@) == planned(
                dests,
                *gateways,
                iface_name@,
            ),
            Err(reason) => r is Err && r->Err_0.reason@ == reason,
        },
        forall|items: Seq<Seq<char>>| #[trigger]
            is_plain_array(data@, items) ==> r is Ok && plan_view(r->Ok_0@) == planned(
                items,
                *gateways,
                iface_name@,
            ),
{
    match read_destinations(data) {
        Ok(dests) => Ok(plan_routes(&dests, gateways, iface_name)),
        Err(e) => Err(e),
    }
}

} // verus!
