//! The mathematical model of a descriptor store: per-space content blobs and
//! four flat indexes, an original space, and an optional temporary space.

use vstd::prelude::*;

use crate::app::{app_value, App};
use crate::descriptor::DescView;
use crate::descriptor_tools::index_line_spec;
use crate::space::{space_value, Space};
use crate::text::{append_line_spec, string_of};

verus! {

/// The four index kinds, one per descriptor field.
#[derive(Debug, Clone, Copy, PartialEq, Eq, Structural)]
pub enum DescIndex {
    DescPointIndex,
    DescNameIndex,
    DescLabelIndex,
    DescDescIndex,
}

/// The name under which an index kind is stored.
pub open spec fn index_file_name_spec(k: DescIndex) -> Seq<char> {
    match k {
        DescIndex::DescPointIndex => "Desc_point_index"@,
        DescIndex::DescNameIndex => "Desc_name_index"@,
        DescIndex::DescLabelIndex => "Desc_label_index"@,
        DescIndex::DescDescIndex => "Desc_desc_index"@,
    }
}

impl DescIndex {
    /// The name under which this index kind is stored.
    pub fn file_name(&self) -> (r: String)
        ensures
            r@ == index_file_name_spec(*self),
    {
        match self {
            DescIndex::DescPointIndex => string_of("Desc_point_index"),
            DescIndex::DescNameIndex => string_of("Desc_name_index"),
            DescIndex::DescLabelIndex => string_of("Desc_label_index"),
            DescIndex::DescDescIndex => string_of("Desc_desc_index"),
        }
    }
}

/// One space's contents: blobs keyed by content id, and the four index texts.
#[verifier::ext_equal]
pub struct SpaceView {
    pub blobs: Map<Seq<char>, Seq<char>>,
    pub point_index: Seq<char>,
    pub name_index: Seq<char>,
    pub label_index: Seq<char>,
    pub description_index: Seq<char>,
}

/// A whole store: every space's contents, the original space, and the
/// temporary space when one was set.
#[verifier::ext_equal]
pub struct StoreView {
    pub spaces: Map<Seq<char>, SpaceView>,
    pub org_space: Seq<char>,
    pub tmp_space: Option<Seq<char>>,
}

/// A space with nothing in it.
pub open spec fn empty_space() -> SpaceView {
    SpaceView {
        blobs: Map::empty(),
        point_index: Seq::empty(),
        name_index: Seq::empty(),
        label_index: Seq::empty(),
        description_index: Seq::empty(),
    }
}

/// A store freshly opened on the given original space: every space empty, no
/// temporary space.
pub open spec fn initial_store(org: Seq<char>) -> StoreView {
    StoreView {
        spaces: Map::new(|sp: Seq<char>| true, |sp: Seq<char>| empty_space()),
        org_space: org,
        tmp_space: None,
    }
}

/// The space a store currently works in: the original one when no temporary
/// space was set, when it was set empty, or when it equals the original —
/// otherwise the temporary one.
pub open spec fn active_space(v: StoreView) -> Seq<char> {
    match v.tmp_space {
        None => v.org_space,
        Some(t) => if t.len() == 0 || t == v.org_space {
            v.org_space
        } else {
            t
        },
    }
}

/// The contents of space `sp`, an untouched space being empty.
pub open spec fn space_data(v: StoreView, sp: Seq<char>) -> SpaceView {
    if v.spaces.contains_key(sp) {
        v.spaces[sp]
    } else {
        empty_space()
    }
}

/// The contents of the active space.
pub open spec fn active_data(v: StoreView) -> SpaceView {
    space_data(v, active_space(v))
}

/// The blob stored under `id` in the active space, or empty when there is
/// none.
pub open spec fn blob_or_empty(v: StoreView, id: Seq<char>) -> Seq<char> {
    if active_data(v).blobs.contains_key(id) {
        active_data(v).blobs[id]
    } else {
        Seq::empty()
    }
}

/// The text of index `k` in a space.
pub open spec fn index_text(d: SpaceView, k: DescIndex) -> Seq<char> {
    match k {
        DescIndex::DescPointIndex => d.point_index,
        DescIndex::DescNameIndex => d.name_index,
        DescIndex::DescLabelIndex => d.label_index,
        DescIndex::DescDescIndex => d.description_index,
    }
}

/// A space with index `k` replaced by `t`.
pub open spec fn with_index_text(d: SpaceView, k: DescIndex, t: Seq<char>) -> SpaceView {
    match k {
        DescIndex::DescPointIndex => SpaceView { point_index: t, ..d },
        DescIndex::DescNameIndex => SpaceView { name_index: t, ..d },
        DescIndex::DescLabelIndex => SpaceView { label_index: t, ..d },
        DescIndex::DescDescIndex => SpaceView { description_index: t, ..d },
    }
}

/// The store with the active space's contents replaced.
pub open spec fn with_active_data(v: StoreView, d: SpaceView) -> StoreView {
    StoreView { spaces: v.spaces.insert(active_space(v), d), ..v }
}

/// The store after a blob is written under `id` in the active space.
pub open spec fn store_add_blob(v: StoreView, id: Seq<char>, content: Seq<char>) -> StoreView {
    with_active_data(
        v,
        SpaceView { blobs: active_data(v).blobs.insert(id, content), ..active_data(v) },
    )
}

/// The store after index `k` of the active space is replaced by `t`.
pub open spec fn store_set_index(v: StoreView, k: DescIndex, t: Seq<char>) -> StoreView {
    with_active_data(v, with_index_text(active_data(v), k, t))
}

/// A space after a descriptor's four index lines are appended.
pub open spec fn indexed_space(d: SpaceView, desc: DescView) -> SpaceView {
    SpaceView {
        blobs: d.blobs,
        point_index: append_line_spec(d.point_index, index_line_spec(desc.point, desc.desc_id)),
        name_index: append_line_spec(d.name_index, index_line_spec(desc.name, desc.desc_id)),
        label_index: append_line_spec(d.label_index, index_line_spec(desc.label, desc.desc_id)),
        description_index: append_line_spec(
            d.description_index,
            index_line_spec(desc.description, desc.desc_id),
        ),
    }
}

/// The store after a descriptor's four index lines are appended in the active
/// space.
pub open spec fn store_index_desc(v: StoreView, desc: DescView) -> StoreView {
    with_active_data(v, indexed_space(active_data(v), desc))
}

/// The store after the temporary space is pointed at `sp`.
pub open spec fn store_set_tmp(v: StoreView, sp: Seq<char>) -> StoreView {
    StoreView { tmp_space: Some(sp), ..v }
}

/// The store after the temporary space is pointed back at the original one.
pub open spec fn store_revert(v: StoreView) -> StoreView {
    StoreView { tmp_space: Some(v.org_space), ..v }
}

/// Whether `v1` differs from `v0` at most inside the active space: both
/// space pointers kept, every other space's data kept.  This is all a
/// failed write may leave behind — a fallible medium aborts one operation
/// without rolling back, but never reaches another space.
pub open spec fn only_active_disturbed(v0: StoreView, v1: StoreView) -> bool {
    &&& v1.org_space == v0.org_space
    &&& v1.tmp_space == v0.tmp_space
    &&& forall|sp: Seq<char>|
        sp != active_space(v0) ==> #[trigger] space_data(v1, sp) == space_data(v0, sp)
}

/// As [`only_active_disturbed`], with the active space's blobs kept too:
/// only its index texts may differ.
pub open spec fn only_indexes_disturbed(v0: StoreView, v1: StoreView) -> bool {
    only_active_disturbed(v0, v1) && active_data(v1).blobs == active_data(v0).blobs
}

/// Replacing an index text keeps every other space and the active blobs.
pub proof fn lemma_set_index_disturbs_only_indexes(
    v0: StoreView,
    v1: StoreView,
    k: DescIndex,
    t: Seq<char>,
)
    requires
        only_indexes_disturbed(v0, v1),
    ensures
        only_indexes_disturbed(v0, store_set_index(v1, k, t)),
{
    assert(active_space(v1) == active_space(v0));
    let v2 = store_set_index(v1, k, t);
    assert(forall|sp: Seq<char>|
        sp != active_space(v0) ==> #[trigger] space_data(v2, sp) == space_data(v1, sp));
    assert(active_data(v2).blobs == active_data(v1).blobs);
}

/// Writing a blob keeps every other space untouched.
pub proof fn lemma_add_blob_disturbs_only_active(
    v0: StoreView,
    v1: StoreView,
    id: Seq<char>,
    c: Seq<char>,
)
    requires
        only_active_disturbed(v0, v1),
    ensures
        only_active_disturbed(v0, store_add_blob(v1, id, c)),
{
    assert(active_space(v1) == active_space(v0));
    let v2 = store_add_blob(v1, id, c);
    assert(forall|sp: Seq<char>|
        sp != active_space(v0) ==> #[trigger] space_data(v2, sp) == space_data(v1, sp));
}

/// The default space name, used when none is given.
pub open spec fn default_space_name() -> Seq<char> {
    "default"@
}

/// The default application name, used when none is given.
pub open spec fn default_app_name() -> Seq<char> {
    "infospace"@
}

/// The space name a [`Space`] resolves to: the name it carries, or the
/// default.
pub open spec fn resolve_space_spec(s: Space) -> Seq<char> {
    match space_value(s) {
        Some(t) => t,
        None => default_space_name(),
    }
}

/// The application name an [`App`] resolves to: the name it carries, or the
/// default.
pub open spec fn resolve_app_spec(a: App) -> Seq<char> {
    match app_value(a) {
        Some(t) => t,
        None => default_app_name(),
    }
}

/// The space name a [`Space`] resolves to: the name it carries, or the
/// default.
pub fn resolve_space_name(s: &Space) -> (r: String)
    ensures
        r@ == resolve_space_spec(*s),
{
    match s.get_value() {
        Some(t) => t,
        None => string_of("default"),
    }
}

/// The application name an [`App`] resolves to: the name it carries, or the
/// default.
pub fn resolve_app_name(a: &App) -> (r: String)
    ensures
        r@ == resolve_app_spec(*a),
{
    match a.get_value() {
        Some(t) => t,
        None => string_of("infospace"),
    }
}

} // verus!
