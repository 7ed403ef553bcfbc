use vstd::prelude::*;

verus! {

/// One attribute of an element: a name and a value.
pub struct Attribute {
    pub name: String,
    pub value: String,
}

/// An element of the document tree: its tag name, its attributes in
/// document order, and its child nodes in document order.
pub struct Element {
    pub name: String,
    pub attrs: Vec<Attribute>,
    pub children: Vec<DomNode>,
}

/// A node of the document tree, as the cell parser sees it: a text node,
/// an element, or some other node kind (comment, processing instruction).
pub enum DomNode {
    Text(String),
    Elem(Element),
    Other,
}

/// The value of the first attribute named `name`, if any.
pub open spec fn spec_attr(attrs: Seq<Attribute>, name: Seq<char>) -> Option<Seq<char>>
    decreases attrs.len(),
{
    if attrs.len() == 0 {
        None
    } else if attrs[0].name@ == name {
        Some(attrs[0].value@)
    } else {
        spec_attr(attrs.drop_first(), name)
    }
}

impl Element {
    /// The value of this element's first attribute named `name`, if any.
    pub fn attr(&self, name: &str) -> (r: Option<&String>)
        ensures
            match r {
                Some(v) => spec_attr(self.attrs@, name@) == Some(v@),
                None => spec_attr(self.attrs@, name@) is None,
            },
    {
        let mut i: usize = 0;
        proof {
            assert(self.attrs@.skip(0) =~= self.attrs@);
        }
        while i < self.attrs.len()
            invariant
                i <= self.attrs@.len(),
                spec_attr(self.attrs@, name@) == spec_attr(self.attrs@.skip(i as int), name@),
        decreases self.attrs@.len() - i,
        {
            proof {
                assert(self.attrs@.skip(i as int).drop_first() =~= self.attrs@.skip(i + 1));
            }
            if crate::str_eq(self.attrs[i].name.as_str(), name) {
                return Some(&self.attrs[i].value);
            }
            i += 1;
        }
        None
    }
}

} // verus!
