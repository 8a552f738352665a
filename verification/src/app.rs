//! The application name given when a store is opened: either a definite name
//! or an optional one; an empty or absent name falls back to a default.

use vstd::prelude::*;

verus! {

/// An application name as handed in by a caller: a definite name, or an
/// optional one.
#[derive(Debug, Clone)]
pub enum App {
    Definite(String),
    Maybe(Option<String>),
}

/// The name an [`App`] carries: a definite nonempty name, or whatever the
/// optional holds; a definite empty name counts as absent.
pub open spec fn app_value(a: App) -> Option<Seq<char>> {
    match a {
        App::Definite(t) => if t@.len() > 0 {
            Some(t@)
        } else {
            None
        },
        App::Maybe(o) => match o {
            Some(t) => Some(t@),
            None => None,
        },
    }
}

/// The plain text of an [`App`]: its name, or empty when absent.
pub open spec fn app_text(a: App) -> Seq<char> {
    match a {
        App::Definite(t) => t@,
        App::Maybe(o) => match o {
            Some(t) => t@,
            None => Seq::empty(),
        },
    }
}

impl App {
    /// The name this identifier carries, when it carries one.
    pub fn get_value(&self) -> (r: Option<String>)
        ensures
            match r {
                Some(t) => app_value(*self) == Some(t@),
                None => app_value(*self) is None,
            },
    {
        match self {
            App::Definite(t) => if !t.as_str().is_empty() {
                Some(t.clone())
            } else {
                None
            },
            App::Maybe(o) => match o {
                Some(t) => Some(t.clone()),
                None => None,
            },
        }
    }

    /// Whether no name is carried.
    pub fn is_none(&self) -> (r: bool)
        ensures
            r == (app_value(*self) is None),
    {
        match self {
            App::Definite(t) => t.as_str().is_empty(),
            App::Maybe(o) => match o {
                Some(_) => false,
                None => true,
            },
        }
    }

    /// Whether a name is carried.
    pub fn is_some(&self) -> (r: bool)
        ensures
            r == (app_value(*self) is Some),
    {
        !self.is_none()
    }

    /// The plain text of this identifier: its name, or empty when absent.
    pub fn to_text(&self) -> (r: String)
        ensures
            r@ == app_text(*self),
    {
        match self {
            App::Definite(t) => t.clone(),
            App::Maybe(o) => match o {
                Some(t) => t.clone(),
                None => String::new(),
            },
        }
    }
}

impl From<String> for App {
    /// Wraps a definite application name.
    fn from(s: String) -> (r: Self) {
        App::Definite(s)
    }
}

impl vstd::std_specs::convert::FromSpecImpl<String> for App {
    open spec fn obeys_from_spec() -> bool {
        true
    }

    open spec fn from_spec(s: String) -> Self {
        App::Definite(s)
    }
}

impl From<Option<String>> for App {
    /// Wraps an optional application name.
    fn from(o: Option<String>) -> (r: Self) {
        App::Maybe(o)
    }
}

impl vstd::std_specs::convert::FromSpecImpl<Option<String>> for App {
    open spec fn obeys_from_spec() -> bool {
        true
    }

    open spec fn from_spec(o: Option<String>) -> Self {
        App::Maybe(o)
    }
}

} // verus!
