//! Names of bindings.

use vstd::prelude::*;
use vstd::std_specs::convert::FromSpecImpl;

verus! {

/// The name of a binding. Its view is the sequence of its characters, and two
/// identifiers denote the same binding exactly when their views are equal.
#[derive(Debug, PartialEq, Eq, Hash)]
pub struct Identifier {
    name: String,
}

impl View for Identifier {
    type V = Seq<char>;

    closed spec fn view(&self) -> Seq<char> {
        self.name@
    }
}

impl Identifier {
    /// The identifier spelled `name`.
    pub fn new(name: &str) -> (id: Identifier)
        ensures
            id@ == name@,
    {
        Identifier { name: String::from_str(name) }
    }

    /// The spelling of the identifier.
    pub fn as_str(&self) -> (name: &str)
        ensures
            name@ == self@,
    {
        self.name.as_str()
    }

    /// The spelling of the identifier, as an owned string.
    pub fn into_string(self) -> (name: String)
        ensures
            name@ == self@,
    {
        self.name
    }
}

impl Clone for Identifier {
    fn clone(&self) -> (id: Identifier)
        ensures
            id == *self,
    {
        Identifier { name: self.name.clone() }
    }
}

impl From<&str> for Identifier {
    fn from(name: &str) -> (id: Identifier)
        ensures
            id@ == name@,
    {
        Identifier::new(name)
    }
}

/// No spec function can build an identifier from its spelling, so what the
/// conversion returns is stated by the `ensures` of `from` alone.
impl FromSpecImpl<&str> for Identifier {
    open spec fn obeys_from_spec() -> bool {
        false
    }

    open spec fn from_spec(name: &str) -> Identifier {
        arbitrary()
    }
}

} // verus!
