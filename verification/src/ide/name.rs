//! Names of database objects, compared the way Postgres compares them.
use vstd::prelude::*;
use crate::ide::quote::{normalize_identifier, normalized_identifier};

verus! {

/// A name, held as the name it denotes: the text between its quotes when it
/// is quoted, else the text in lowercase.
#[derive(Clone, Debug, PartialEq, Eq, Hash)]
pub struct Name(pub String);

impl View for Name {
    type V = Seq<char>;

    open spec fn view(&self) -> Seq<char> {
        self.0@
    }
}

impl Name {
    /// The name written as `text`.
    pub fn from_string(text: &str) -> (n: Name)
        ensures
            n@ == normalized_identifier(text@),
    {
        Name(normalize_identifier(text))
    }

    /// The name, as it is shown.
    pub fn to_string(&self) -> (r: String)
        ensures
            r@ == self@,
    {
        self.0.clone()
    }
}

/// The name of a schema.
#[derive(Clone, Debug, PartialEq, Eq)]
pub struct Schema(pub Name);

impl Schema {
    /// The schema written as `name`.
    pub fn new(name: &str) -> (s: Schema)
        ensures
            s.0@ == normalized_identifier(name@),
    {
        Schema(Name::from_string(name))
    }

    /// The schema's name, as it is shown.
    pub fn to_string(&self) -> (r: String)
        ensures
            r@ == self.0@,
    {
        self.0.to_string()
    }
}

} // verus!
