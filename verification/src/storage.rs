use vstd::prelude::*;

verus! {

/// The file that holds the requests by default.
pub open spec fn default_store_file() -> Seq<char> {
    ".curlish.json"@
}

/// The path of the file that holds the requests.
pub fn default_path() -> (r: String)
    ensures
        r@ == default_store_file(),
{
    String::from_str(".curlish.json")
}

} // verus!
