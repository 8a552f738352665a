//! The space identifier given when a store is opened: either a definite name
//! or an optional one; an empty or absent name falls back to a default.

use vstd::prelude::*;

verus! {

/// A space identifier as handed in by a caller: a definite name, or an
/// optional one.
#[derive(Debug, Clone)]
pub enum Space {
    Definite(String),
    Maybe(Option<String>),
}

/// The name a [`Space`] carries: a definite nonempty name, or whatever the
/// optional holds; a definite empty name counts as absent.
pub open spec fn space_value(s: Space) -> Option<Seq<char>> {
    match s {
        Space::Definite(t) => if t@.len() > 0 {
            Some(t@)
        } else {
            None
        },
        Space::Maybe(o) => match o {
            Some(t) => Some(t@),
            None => None,
        },
    }
}

/// The plain text of a [`Space`]: its name, or empty when absent.
pub open spec fn space_text(s: Space) -> Seq<char> {
    match s {
        Space::Definite(t) => t@,
        Space::Maybe(o) => match o {
            Some(t) => t@,
            None => Seq::empty(),
        },
    }
}

impl Space {
    /// The name this space identifier carries, when it carries one.
    pub fn get_value(&self) -> (r: Option<String>)
        ensures
            match r {
                Some(t) => space_value(*self) == Some(t@),
                None => space_value(*self) is None,
            },
    {
        match self {
            Space::Definite(t) => if !t.as_str().is_empty() {
                Some(t.clone())
            } else {
                None
            },
            Space::Maybe(o) => match o {
                Some(t) => Some(t.clone()),
                None => None,
            },
        }
    }

    /// Whether no name is carried.
    pub fn is_none(&self) -> (r: bool)
        ensures
            r == (space_value(*self) is None),
    {
        match self {
            Space::Definite(t) => t.as_str().is_empty(),
            Space::Maybe(o) => match o {
                Some(_) => false,
                None => true,
            },
        }
    }

    /// Whether a name is carried.
    pub fn is_some(&self) -> (r: bool)
        ensures
            r == (space_value(*self) is Some),
    {
        !self.is_none()
    }

    /// The plain text of this identifier: its name, or empty when absent.
    pub fn to_text(&self) -> (r: String)
        ensures
            r@ == space_text(*self),
    {
        match self {
            Space::Definite(t) => t.clone(),
            Space::Maybe(o) => match o {
                Some(t) => t.clone(),
                None => String::new(),
            },
        }
    }
}

impl From<String> for Space {
    /// Wraps a definite space name.
    fn from(s: String) -> (r: Self) {
        Space::Definite(s)
    }
}

impl vstd::std_specs::convert::FromSpecImpl<String> for Space {
    open spec fn obeys_from_spec() -> bool {
        true
    }

    open spec fn from_spec(s: String) -> Self {
        Space::Definite(s)
    }
}

impl From<Option<String>> for Space {
    /// Wraps an optional space name.
    fn from(o: Option<String>) -> (r: Self) {
        Space::Maybe(o)
    }
}

impl vstd::std_specs::convert::FromSpecImpl<Option<String>> for Space {
    open spec fn obeys_from_spec() -> bool {
        true
    }

    open spec fn from_spec(o: Option<String>) -> Self {
        Space::Maybe(o)
    }
}

} // verus!
