//! Opaque, comparable handles: the string-derived identity of a module and
//! the graph-assigned identity of a dependency.

use vstd::prelude::*;
use vstd::string::StringExecFns;

verus! {

/// A process-unique, stable, string-derived handle. Two modules with an
/// equal identifier are the same node: the graph never stores duplicates.
#[derive(Clone, Debug)]
pub struct Identifier {
    pub text: String,
}

impl View for Identifier {
    type V = Seq<char>;

    open spec fn view(&self) -> Seq<char> {
        self.text@
    }
}

impl Identifier {
    /// Builds an identifier from its text.
    pub fn from_str(text: &str) -> (r: Identifier)
        ensures
            r@ == text@,
    {
        Identifier { text: String::from_str(text) }
    }

    /// Builds an identifier from an owned string.
    pub fn from_string(text: String) -> (r: Identifier)
        ensures
            r@ == text@,
    {
        Identifier { text }
    }

    /// Whether two identifiers name the same node.
    pub fn same_as(&self, other: &Identifier) -> (r: bool)
        ensures
            r == (self@ == other@),
    {
        self.text == other.text
    }

    /// The identifier's text.
    pub fn as_string(&self) -> (r: &String)
        ensures
            r@ == self@,
    {
        &self.text
    }
}

/// The identity a dependency gets from the graph at insertion: its index in
/// the graph's dependency store. Assigned once, never reassigned.
#[derive(Clone, Copy, PartialEq, Eq, Structural, Debug)]
pub struct DependencyId {
    pub index: usize,
}

impl DependencyId {
    /// Wraps a dependency-store index.
    pub fn new(index: usize) -> (r: DependencyId)
        ensures
            r.index == index,
    {
        DependencyId { index }
    }
}

} // verus!
