//! The id and index-line codec: canonicalizes descriptor fields into the hash
//! input that yields the content id, and builds the `"value id"` index lines.

use vstd::prelude::*;

use crate::descriptor::Descriptor;
use crate::hashing::{hash_of, hash_text, is_digest};
use crate::text::{canon_spec, canonicalize, string_of, trim, trim_spec};

verus! {

/// The text fed to the digest function: the three single-line fields
/// canonicalized, the description trimmed, joined by line feeds.
pub open spec fn hash_input(
    point: Seq<char>,
    name: Seq<char>,
    label: Seq<char>,
    description: Seq<char>,
) -> Seq<char> {
    canon_spec(point) + seq!['\n'] + canon_spec(name) + seq!['\n'] + canon_spec(label)
        + seq!['\n'] + trim_spec(description)
}

/// The content id of a descriptor with the given raw fields: the digest of
/// their canonical concatenation.
pub open spec fn desc_id_spec(
    point: Seq<char>,
    name: Seq<char>,
    label: Seq<char>,
    description: Seq<char>,
) -> Seq<char> {
    hash_of(hash_input(point, name, label, description))
}

/// One index line: the trimmed field value, one space, the id.
pub open spec fn index_line_spec(value: Seq<char>, id: Seq<char>) -> Seq<char> {
    trim_spec(value) + seq![' '] + id
}

/// Returns the content id for four raw field texts.  The same canonicalized
/// fields always yield the same id — the dedup contract the store depends on.
pub fn create_desc_id(point: &str, name: &str, label: &str, description: &str) -> (r: String)
    ensures
        r@ == desc_id_spec(point@, name@, label@, description@),
        is_digest(r@),
{
    let mut concat: String = canonicalize(point);
    concat.append("\n");
    let name_c = canonicalize(name);
    concat.append(name_c.as_str());
    concat.append("\n");
    let label_c = canonicalize(label);
    concat.append(label_c.as_str());
    concat.append("\n");
    let description_t = trim(description);
    concat.append(description_t.as_str());
    proof {
        reveal_strlit("\n");
        assert("\n"@ =~= seq!['\n']);
        assert(concat@ =~= hash_input(point@, name@, label@, description@));
    }
    hash_text(concat.as_str())
}

/// The content id of the given descriptor, computed from its fields.
pub fn get_desc_id(desc: &Descriptor) -> (r: String)
    ensures
        r@ == desc_id_spec(desc@.point, desc@.name, desc@.label, desc@.description),
        is_digest(r@),
{
    create_desc_id(
        desc.point.as_str(),
        desc.name.as_str(),
        desc.label.as_str(),
        desc.description.as_str(),
    )
}

/// Builds one index line from a field value and an id: the trimmed value,
/// one space, the id.
pub fn build_index_line(value: &str, id: &str) -> (r: String)
    ensures
        r@ == index_line_spec(value@, id@),
{
    let mut line = trim(value);
    line.append(" ");
    line.append(id);
    proof {
        reveal_strlit(" ");
        assert(" "@ =~= seq![' ']);
        assert(line@ =~= index_line_spec(value@, id@));
    }
    line
}

/// The index line tying a field value to the descriptor's computed id.
pub fn create_desc_index_line(desc: &Descriptor, field: &str) -> (r: String)
    ensures
        r@ == index_line_spec(
            field@,
            desc_id_spec(desc@.point, desc@.name, desc@.label, desc@.description),
        ),
{
    let id = get_desc_id(desc);
    build_index_line(field, id.as_str())
}

/// The point-index line for the given descriptor.
pub fn create_desc_point_index_line(desc: &Descriptor) -> (r: String)
    ensures
        r@ == index_line_spec(
            desc@.point,
            desc_id_spec(desc@.point, desc@.name, desc@.label, desc@.description),
        ),
{
    let field = string_of(desc.point.as_str());
    create_desc_index_line(desc, field.as_str())
}

/// The name-index line for the given descriptor.
pub fn create_desc_name_index_line(desc: &Descriptor) -> (r: String)
    ensures
        r@ == index_line_spec(
            desc@.name,
            desc_id_spec(desc@.point, desc@.name, desc@.label, desc@.description),
        ),
{
    let field = string_of(desc.name.as_str());
    create_desc_index_line(desc, field.as_str())
}

/// The label-index line for the given descriptor.
pub fn create_desc_label_index_line(desc: &Descriptor) -> (r: String)
    ensures
        r@ == index_line_spec(
            desc@.label,
            desc_id_spec(desc@.point, desc@.name, desc@.label, desc@.description),
        ),
{
    let field = string_of(desc.label.as_str());
    create_desc_index_line(desc, field.as_str())
}

/// The description-index line for the given descriptor.
pub fn create_desc_description_index_line(desc: &Descriptor) -> (r: String)
    ensures
        r@ == index_line_spec(
            desc@.description,
            desc_id_spec(desc@.point, desc@.name, desc@.label, desc@.description),
        ),
{
    let field = string_of(desc.description.as_str());
    create_desc_index_line(desc, field.as_str())
}

} // verus!
