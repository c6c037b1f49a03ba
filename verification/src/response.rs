use vstd::prelude::*;

verus! {

/// One key-value string pair attached to a successful mutating response,
/// used by the host for indexing and observability.
#[derive(Debug, PartialEq, Eq)]
pub struct Attribute {
    pub key: String,
    pub value: String,
}

/// A successful mutating response: the attributes the host indexes.
#[derive(Debug, PartialEq, Eq)]
pub struct Response {
    pub attributes: Vec<Attribute>,
}

impl Response {
    /// A response with no attributes.
    pub fn new() -> (r: Response)
        ensures
            r.attributes@.len() == 0,
    {
        Response { attributes: Vec::new() }
    }

    /// The response extended with one attribute.
    pub fn add_attribute(self, key: String, value: String) -> (r: Response)
        ensures
            r.attributes@.len() == self.attributes@.len() + 1,
            r.attributes@.last().key@ == key@,
            r.attributes@.last().value@ == value@,
            forall|i: int|
                0 <= i < self.attributes@.len() ==> r.attributes@[i] == self.attributes@[i],
    {
        let mut attributes = self.attributes;
        attributes.push(Attribute { key, value });
        Response { attributes }
    }
}

/// The response carries exactly one attribute, keyed `counter`, with the
/// given value.
pub open spec fn counter_attr(r: Response, v: Seq<char>) -> bool {
    &&& r.attributes@.len() == 1
    &&& r.attributes@[0].key@ == "counter"@
    &&& r.attributes@[0].value@ == v
}

} // verus!
