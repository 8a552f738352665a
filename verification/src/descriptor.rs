//! The descriptor entity: a four-field note plus its derived content id, with
//! its plain-text serialization.

use vstd::prelude::*;

use crate::text::{
    canon_spec, canonicalize, line_or_empty, lines_spec, skip_past_line, split_lines, string_of,
    tail_after_line,
};

verus! {

/// The mathematical value of a [`Descriptor`]: its five fields as character
/// sequences.
#[verifier::ext_equal]
pub struct DescView {
    pub desc_id: Seq<char>,
    pub point: Seq<char>,
    pub name: Seq<char>,
    pub label: Seq<char>,
    pub description: Seq<char>,
}

/// A four-field note: `point` is the single-line lookup key, `name` and
/// `label` are single-line, `description` keeps internal newlines, and
/// `desc_id` is the derived content id.
#[derive(Debug, Clone, PartialEq)]
pub struct Descriptor {
    pub desc_id: String,
    pub point: String,
    pub name: String,
    pub label: String,
    pub description: String,
}

impl View for Descriptor {
    type V = DescView;

    open spec fn view(&self) -> DescView {
        DescView {
            desc_id: self.desc_id@,
            point: self.point@,
            name: self.name@,
            label: self.label@,
            description: self.description@,
        }
    }
}

/// The descriptor with every field empty.
pub open spec fn empty_desc() -> DescView {
    DescView {
        desc_id: Seq::empty(),
        point: Seq::empty(),
        name: Seq::empty(),
        label: Seq::empty(),
        description: Seq::empty(),
    }
}

/// A freshly built descriptor: single-line fields canonicalized, description
/// kept as given, no id yet.
pub open spec fn new_desc_spec(
    point: Seq<char>,
    name: Seq<char>,
    label: Seq<char>,
    description: Seq<char>,
) -> DescView {
    DescView {
        desc_id: Seq::empty(),
        point: canon_spec(point),
        name: canon_spec(name),
        label: canon_spec(label),
        description: description,
    }
}

/// The serialized content of a descriptor: the four fields joined by line
/// feeds, single-line fields canonicalized, the id not embedded.
pub open spec fn serialize_spec(d: DescView) -> Seq<char> {
    canon_spec(d.point) + seq!['\n'] + canon_spec(d.name) + seq!['\n'] + canon_spec(d.label)
        + seq!['\n'] + d.description
}

/// The descriptor read back from serialized content: the first three lines
/// become point, name and label (missing lines are empty), everything after
/// the third line feed becomes the description, internal newlines preserved;
/// empty content yields the empty descriptor.
pub open spec fn deserialize_spec(s: Seq<char>) -> DescView {
    if s.len() == 0 {
        empty_desc()
    } else {
        new_desc_spec(
            line_or_empty(lines_spec(s), 0),
            line_or_empty(lines_spec(s), 1),
            line_or_empty(lines_spec(s), 2),
            tail_after_line(tail_after_line(tail_after_line(s))),
        )
    }
}

impl Descriptor {
    /// A descriptor built from raw field texts: single-line fields are
    /// canonicalized, the description is kept as given, and no id is set.
    fn new(point: &str, name: &str, label: &str, description: &str) -> (r: Descriptor)
        ensures
            r@ == new_desc_spec(point@, name@, label@, description@),
    {
        Descriptor {
            desc_id: String::new(),
            point: canonicalize(point),
            name: canonicalize(name),
            label: canonicalize(label),
            description: string_of(description),
        }
    }

    /// Stores the given id, canonicalized.
    pub fn set_desc_id(&mut self, desc_id: &str)
        ensures
            final (self)@ == (DescView { desc_id: canon_spec(desc_id@), ..old(self)@ }),
    {
        self.desc_id = canonicalize(desc_id);
    }

    /// Stores the given name, canonicalized.
    pub fn set_name(&mut self, name: &str)
        ensures
            final (self)@ == (DescView { name: canon_spec(name@), ..old(self)@ }),
    {
        self.name = canonicalize(name);
    }

    /// Stores the given label, canonicalized.
    pub fn set_label(&mut self, label: &str)
        ensures
            final (self)@ == (DescView { label: canon_spec(label@), ..old(self)@ }),
    {
        self.label = canonicalize(label);
    }

    /// Stores the given description as it is.
    pub fn set_description(&mut self, description: &str)
        ensures
            final (self)@ == (DescView { description: description@, ..old(self)@ }),
    {
        self.description = string_of(description);
    }

    /// The serialized content of this descriptor: four fields joined by line
    /// feeds, single-line fields canonicalized, the id not embedded.
    pub fn serialize(&self) -> (r: String)
        ensures
            r@ == serialize_spec(self@),
    {
        let mut out = canonicalize(self.point.as_str());
        out.append("\n");
        let name = canonicalize(self.name.as_str());
        out.append(name.as_str());
        out.append("\n");
        let label = canonicalize(self.label.as_str());
        out.append(label.as_str());
        out.append("\n");
        out.append(self.description.as_str());
        proof {
            reveal_strlit("\n");
            assert("\n"@ =~= seq!['\n']);
            assert(out@ =~= serialize_spec(self@));
        }
        out
    }

    /// Reads a descriptor back from serialized content.
    pub fn deserialize(s: &str) -> (r: Descriptor)
        ensures
            r@ == deserialize_spec(s@),
    {
        if s.is_empty() {
            proof {
                assert(s@.len() == 0);
            }
            Descriptor {
                desc_id: String::new(),
                point: String::new(),
                name: String::new(),
                label: String::new(),
                description: String::new(),
            }
        } else {
            let ls = split_lines(s);
            let point = if ls.len() > 0 {
                ls[0].as_str()
            } else {
                ""
            };
            let name = if ls.len() > 1 {
                ls[1].as_str()
            } else {
                ""
            };
            let label = if ls.len() > 2 {
                ls[2].as_str()
            } else {
                ""
            };
            let description = skip_past_line(skip_past_line(skip_past_line(s)));
            proof {
                reveal_strlit("");
                assert(""@ =~= Seq::<char>::empty());
            }
            Descriptor::new(point, name, label, description)
        }
    }

    /// An exact copy of this descriptor, field for field.
    pub fn duplicate(&self) -> (r: Descriptor)
        ensures
            r@ == self@,
    {
        Descriptor {
            desc_id: self.desc_id.clone(),
            point: self.point.clone(),
            name: self.name.clone(),
            label: self.label.clone(),
            description: self.description.clone(),
        }
    }

    /// A throwaway descriptor whose fields all carry the given marker, with a
    /// fixed multi-line description.
    pub fn mock_with_id(identifier_label: &str) -> (r: Descriptor)
        ensures
            r.point@ == identifier_label@,
            r.desc_id@ == identifier_label@,
            r.name@ == identifier_label@,
            r.label@ == identifier_label@,
            r.description@ == "Description\nWhich may be \nmultiple lines \nlong"@
                + identifier_label@,
    {
        let mut description = string_of("Description\nWhich may be \nmultiple lines \nlong");
        description.append(identifier_label);
        Descriptor {
            point: string_of(identifier_label),
            desc_id: string_of(identifier_label),
            name: string_of(identifier_label),
            label: string_of(identifier_label),
            description,
        }
    }
}

impl Default for Descriptor {
    /// The descriptor with every field empty.
    fn default() -> (r: Descriptor)
        ensures
            r@ == empty_desc(),
    {
        Descriptor {
            desc_id: String::new(),
            point: String::new(),
            name: String::new(),
            label: String::new(),
            description: String::new(),
        }
    }
}

} // verus!
