//! The director: the user-facing operations — create a descriptor, render
//! the listing, resolve an ordinal to an id, resolve many points to a
//! mapping.

use vstd::prelude::*;

use crate::descriptor::{serialize_spec, DescView, Descriptor};
use crate::descriptor_facade::{
    all_wf_lines, corruption_on, descs_to_map, lines_of, lookup_desc_or_id_spec, point_scan_clean,
    DescIndex, DescriptorFacade, DescriptorMap, StoreError,
};
use crate::descriptor_store::DescriptorStore;
use crate::descriptor_tools::{desc_id_spec, hash_input};
use crate::store_view::{
    active_space, blob_or_empty, only_active_disturbed, store_add_blob, store_index_desc,
    store_revert, store_set_tmp, StoreView,
};
use crate::text::{
    canon_spec, canonicalize, dec_str, digits_value, is_numeral, lemma_canon_idempotent,
    lemma_trim_idempotent, line_id, trim, trim_spec, usize_to_string,
};

verus! {

/// The descriptor a create call builds from four raw inputs: single-line
/// fields canonicalized, description trimmed, the id derived from the inputs.
pub open spec fn created_desc_spec(
    point: Seq<char>,
    name: Seq<char>,
    label: Seq<char>,
    description: Seq<char>,
) -> DescView {
    DescView {
        desc_id: desc_id_spec(point, name, label, description),
        point: canon_spec(point),
        name: canon_spec(name),
        label: canon_spec(label),
        description: trim_spec(description),
    }
}

/// The store after a populated descriptor is persisted and indexed: content
/// first, then the four index lines.
pub open spec fn store_create(v: StoreView, d: DescView) -> StoreView {
    store_index_desc(store_add_blob(v, d.desc_id, serialize_spec(d)), d)
}

/// The descriptors the active space lists, in point-index append order.
pub open spec fn all_descs_spec(v: StoreView) -> Seq<DescView> {
    Seq::new(
        lines_of(v).len(),
        |i: int|
            crate::descriptor::deserialize_spec(blob_or_empty(v, line_id(lines_of(v)[i]))),
    )
}

/// One rendered listing line: the ordinal, a colon, the four fields separated
/// by spaces, a line feed.
pub open spec fn listing_line_spec(i: int, d: DescView) -> Seq<char> {
    dec_str(i) + seq![':', ' '] + d.point + seq![' '] + d.name + seq![' '] + d.label + seq![' ']
        + d.description + seq!['\n']
}

/// The rendered listing of a sequence of descriptors, ordinals counting from
/// zero; no descriptors render as empty text.
pub open spec fn listing_spec(ds: Seq<DescView>) -> Seq<char>
    decreases ds.len(),
{
    if ds.len() == 0 {
        Seq::empty()
    } else {
        listing_spec(ds.drop_last()) + listing_line_spec(ds.len() - 1, ds.last())
    }
}

/// The id the listing holds at a given ordinal: the id of that point-index
/// line, or empty when the ordinal text is no numeral or is out of range.
pub open spec fn resolve_ordinal_spec(v: StoreView, num: Seq<char>) -> Seq<char> {
    if is_numeral(num) && 0 <= digits_value(num) < lines_of(v).len() {
        line_id(lines_of(v)[digits_value(num)])
    } else {
        Seq::empty()
    }
}

/// The user-facing operations over a descriptor facade.
pub struct DescDirector<T: DescriptorStore> {
    descriptors: DescriptorFacade<T>,
}

impl<T: DescriptorStore> DescDirector<T> {
    /// The model of the backing store.
    pub closed spec fn model(&self) -> StoreView {
        self.descriptors.model()
    }

    /// Wraps a facade.
    pub fn new(descriptors: DescriptorFacade<T>) -> (r: Self)
        ensures
            r.model() == descriptors.model(),
    {
        DescDirector { descriptors }
    }

    /// Creates and saves a descriptor and its indexes.  Newlines and
    /// surrounding whitespace in the single-line fields are filtered out, the
    /// description is trimmed, and the returned descriptor carries the
    /// derived id.
    pub fn create_desc(
        &mut self,
        point: String,
        name: String,
        label: String,
        description: String,
    ) -> (r: Result<Descriptor, StoreError>)
        ensures
            match r {
                Ok(d) => d@ == created_desc_spec(point@, name@, label@, description@)
                    && crate::hashing::is_digest(d@.desc_id) && final (self).model()
                    == store_create(
                    old(self).model(),
                    created_desc_spec(point@, name@, label@, description@),
                ),
                Err(e) => e is Io && only_active_disturbed(
                    old(self).model(),
                    final (self).model(),
                ),
            },
    {
        let desc = Descriptor {
            desc_id: String::new(),
            point: canonicalize(point.as_str()),
            name: canonicalize(name.as_str()),
            label: canonicalize(label.as_str()),
            description: trim(description.as_str()),
        };
        let ghost dv = desc@;
        proof {
            lemma_canon_idempotent(point@);
            lemma_canon_idempotent(name@);
            lemma_canon_idempotent(label@);
            lemma_trim_idempotent(description@);
            assert(hash_input(dv.point, dv.name, dv.label, dv.description) =~= hash_input(
                point@,
                name@,
                label@,
                description@,
            ));
        }
        match self.descriptors.add_desc_n_index(desc) {
            Ok(d) => {
                proof {
                    let cd = created_desc_spec(point@, name@, label@, description@);
                    assert(d@ =~= cd);
                    assert(serialize_spec(dv) =~= serialize_spec(cd));
                }
                Ok(d)
            },
            Err(e) => Err(e),
        }
    }

    /// Renders every descriptor note of the active space, one line per
    /// descriptor in creation order; an empty store renders as empty text.
    pub fn ls_descriptor_notes(&self) -> (r: Result<String, StoreError>)
        ensures
            match r {
                Ok(s) => all_wf_lines(lines_of(self.model())) && s@ == listing_spec(
                    all_descs_spec(self.model()),
                ),
                Err(e) => e is Io || (!all_wf_lines(lines_of(self.model())) && corruption_on(
                    e,
                    lines_of(self.model()),
                    DescIndex::DescPointIndex,
                )),
            },
    {
        let ds = match self.descriptors.get_all_descs() {
            Ok(ds) => ds,
            Err(e) => {
                return Err(e);
            },
        };
        let ghost dsv = all_descs_spec(self.model());
        proof {
            assert(forall|j: int| 0 <= j < ds@.len() ==> ds@[j]@ == dsv[j]);
        }
        let n = ds.len();
        let mut out = String::new();
        let mut i: usize = 0;
        while i < n
            invariant
                n == ds@.len(),
                dsv.len() == n,
                forall|j: int| 0 <= j < n ==> ds@[j]@ == dsv[j],
                0 <= i <= n,
                out@ == listing_spec(dsv.take(i as int)),
            decreases n - i,
        {
            let num = usize_to_string(i);
            out.append(num.as_str());
            out.append(": ");
            out.append(ds[i].point.as_str());
            out.append(" ");
            out.append(ds[i].name.as_str());
            out.append(" ");
            out.append(ds[i].label.as_str());
            out.append(" ");
            out.append(ds[i].description.as_str());
            out.append("\n");
            proof {
                reveal_strlit(": ");
                reveal_strlit(" ");
                reveal_strlit("\n");
                assert(": "@ =~= seq![':', ' ']);
                assert(" "@ =~= seq![' ']);
                assert("\n"@ =~= seq!['\n']);
                assert(dsv.take(i as int + 1).drop_last() =~= dsv.take(i as int));
                assert(dsv.take(i as int + 1).last() == dsv[i as int]);
                assert(out@ =~= listing_spec(dsv.take(i as int)) + listing_line_spec(
                    i as int,
                    dsv[i as int],
                ));
            }
            i = i + 1;
        }
        proof {
            assert(dsv.take(n as int) =~= dsv);
        }
        Ok(out)
    }

    /// The id at the given zero-based ordinal of the listing; an ordinal that
    /// is no plain numeral, or one out of range, yields empty text rather
    /// than an error.
    pub fn get_desc_ls_line_number(&self, line_number: String) -> (r: Result<String, StoreError>)
        ensures
            match r {
                Ok(s) => all_wf_lines(lines_of(self.model())) && s@ == resolve_ordinal_spec(
                    self.model(),
                    line_number@,
                ),
                Err(e) => e is Io || (!all_wf_lines(lines_of(self.model())) && corruption_on(
                    e,
                    lines_of(self.model()),
                    DescIndex::DescPointIndex,
                )),
            },
    {
        let ids = match self.descriptors.get_all_desc_ids() {
            Ok(ids) => ids,
            Err(e) => {
                return Err(e);
            },
        };
        let count = ids.len();
        match crate::text::parse_usize(line_number.as_str()) {
            Some(n) => {
                if n < count {
                    Ok(ids[n].clone())
                } else {
                    Ok(String::new())
                }
            },
            None => {
                proof {
                    assert(is_numeral(line_number@) ==> digits_value(line_number@) > usize::MAX
                        >= count);
                }
                Ok(String::new())
            },
        }
    }

    /// Resolves every point of `list` and maps each resulting descriptor by
    /// its point field.
    pub fn get_descs_hashmap_for_list(&self, list: Vec<String>) -> (r: Result<
        DescriptorMap,
        StoreError,
    >)
        ensures
            match r {
                Ok(m) => (forall|i: int|
                    0 <= i < list@.len() ==> #[trigger] point_scan_clean(self.model(), list@[i]@))
                    && m@ == descs_to_map(
                    Seq::new(
                        list@.len(),
                        |i: int| lookup_desc_or_id_spec(self.model(), list@[i]@),
                    ),
                ),
                Err(e) => e is Io || (exists|i: int|
                    0 <= i < list@.len() && !point_scan_clean(self.model(), list@[i]@)),
            },
    {
        self.descriptors.get_descs_hashmap_for_list(list)
    }

    /// Points the store at a temporary space.
    pub fn set_tmp_space_id(&mut self, space_id: String)
        ensures
            final (self).model() == store_set_tmp(old(self).model(), space_id@),
    {
        self.descriptors.set_tmp_space_id(space_id);
    }

    /// Points the store back at its original space.
    pub fn revert_space_id(&mut self)
        ensures
            final (self).model() == store_revert(old(self).model()),
    {
        self.descriptors.revert_space_id();
    }

    /// The space the store currently works in.
    pub fn get_space_id(&mut self) -> (r: String)
        ensures
            final (self).model() == old(self).model(),
            r@ == active_space(old(self).model()),
    {
        self.descriptors.get_space_id()
    }
}

} // verus!
