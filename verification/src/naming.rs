//! Names that are derived from what they name: a tag and the parts that tell one from
//! another. How a name is made of them is the caller's.
use vstd::prelude::*;

use crate::text;

verus! {

/// What a name is to be made of.
#[derive(Debug, Clone, PartialEq, Eq)]
pub struct NameRequest {
    pub tag: String,
    pub parts: Vec<String>,
}

/// `name` is what `namer` makes of the tag and the parts.
pub open spec fn named_by<F: Fn(NameRequest) -> String>(
    namer: F,
    tag: Seq<char>,
    parts: Seq<Seq<char>>,
    name: String,
) -> bool {
    exists|request: NameRequest|
        {
            &&& request.tag@ == tag
            &&& text::texts(request.parts@) == parts
            &&& #[trigger] call_ensures(namer, (request,), name)
        }
}

/// Has a name made of a tag and parts.
pub fn name_parts<F: Fn(NameRequest) -> String>(namer: &F, tag: &str, parts: Vec<String>) -> (r:
    String)
    requires
        forall|request: NameRequest| call_requires(*namer, (request,)),
    ensures
        named_by(*namer, tag@, text::texts(parts@), r),
{
    let request = NameRequest { tag: tag.to_string(), parts };
    let ghost asked = request;
    let name = namer(request);
    assert(call_ensures(*namer, (asked,), name));
    name
}

} // verus!
