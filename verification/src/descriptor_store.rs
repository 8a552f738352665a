//! The storage port: the capability contract any backing medium implements.
//! Everything a store does is stated against its [`StoreView`] model; the
//! lookup and listing logic itself lives above the port, in the facade.
//!
//! Reads and writes are fallible: a medium reports a genuine failure as a
//! typed [`StoreError::Io`] rather than dropping it, while "never written"
//! reads back as empty.  What a failed write may leave behind is bounded by
//! the disturbance predicates of the model: never more than the active
//! space's own contents.

use vstd::prelude::*;

use crate::descriptor::{serialize_spec, Descriptor};
use crate::store_view::{
    active_data, active_space, blob_or_empty, space_data, store_add_blob, store_revert,
    store_set_index, store_set_tmp, DescIndex, StoreView,
};

verus! {

/// A typed storage-layer error.
#[derive(Debug, Clone, PartialEq)]
pub enum StoreError {
    /// An index line lacking the `value id` structure, and the index kind it
    /// was found in.
    Corruption { line: String, index: DescIndex },
    /// The backing medium itself failed, with the medium's own account of
    /// the failure.
    Io { detail: String },
}

/// A backing medium for descriptors: blobs keyed by content id, four flat
/// index texts, and space control.  Reads distinguish "never written"
/// (empty) from a genuine failure, which comes back as a typed error; writes
/// replace whole values, and a failed one is reported, never dropped.
pub trait DescriptorStore: Sized {
    /// The store's contents as a mathematical value.  A verified
    /// implementation states its own; the default is an unspecified value,
    /// of which nothing can be proved.
    open spec fn model(&self) -> StoreView {
        arbitrary()
    }

    /// Persists a descriptor's serialized content under `id` in the active
    /// space, overwriting any previous blob with that id.  A failed write
    /// may leave any content under that id, and nothing else.
    fn add_desc(&mut self, desc: Descriptor, id: String) -> (r: Result<(), StoreError>)
        ensures
            match r {
                Ok(_) => final (self).model() == store_add_blob(
                    old(self).model(),
                    id@,
                    serialize_spec(desc@),
                ),
                Err(e) => e is Io && (exists|c: Seq<char>|
                    final (self).model() == store_add_blob(old(self).model(), id@, c)),
            },
    ;

    /// The blob stored under `desc_id` in the active space, or empty when
    /// there is none.
    fn load_desc(&self, desc_id: &str) -> (r: Result<String, StoreError>)
        ensures
            match r {
                Ok(s) => s@ == blob_or_empty(self.model(), desc_id@),
                Err(e) => e is Io,
            },
    ;

    /// The point index of the active space.
    fn get_desc_point_indexes(&self) -> (r: Result<String, StoreError>)
        ensures
            match r {
                Ok(s) => s@ == active_data(self.model()).point_index,
                Err(e) => e is Io,
            },
    ;

    /// The name index of the active space.
    fn get_desc_name_indexes(&self) -> (r: Result<String, StoreError>)
        ensures
            match r {
                Ok(s) => s@ == active_data(self.model()).name_index,
                Err(e) => e is Io,
            },
    ;

    /// The label index of the active space.
    fn get_desc_label_indexes(&self) -> (r: Result<String, StoreError>)
        ensures
            match r {
                Ok(s) => s@ == active_data(self.model()).label_index,
                Err(e) => e is Io,
            },
    ;

    /// The description index of the active space.
    fn get_desc_description_indexes(&self) -> (r: Result<String, StoreError>)
        ensures
            match r {
                Ok(s) => s@ == active_data(self.model()).description_index,
                Err(e) => e is Io,
            },
    ;

    /// Replaces the point index of the active space.  A failed write may
    /// leave any text in that one index, and nothing else.
    fn set_desc_point_indexes(&mut self, indexes: &str) -> (r: Result<(), StoreError>)
        ensures
            match r {
                Ok(_) => final (self).model() == store_set_index(
                    old(self).model(),
                    DescIndex::DescPointIndex,
                    indexes@,
                ),
                Err(e) => e is Io && (exists|t: Seq<char>|
                    final (self).model() == store_set_index(
                        old(self).model(),
                        DescIndex::DescPointIndex,
                        t,
                    )),
            },
    ;

    /// Replaces the name index of the active space.
    fn set_desc_name_indexes(&mut self, indexes: &str) -> (r: Result<(), StoreError>)
        ensures
            match r {
                Ok(_) => final (self).model() == store_set_index(
                    old(self).model(),
                    DescIndex::DescNameIndex,
                    indexes@,
                ),
                Err(e) => e is Io && (exists|t: Seq<char>|
                    final (self).model() == store_set_index(
                        old(self).model(),
                        DescIndex::DescNameIndex,
                        t,
                    )),
            },
    ;

    /// Replaces the label index of the active space.
    fn set_desc_label_indexes(&mut self, indexes: &str) -> (r: Result<(), StoreError>)
        ensures
            match r {
                Ok(_) => final (self).model() == store_set_index(
                    old(self).model(),
                    DescIndex::DescLabelIndex,
                    indexes@,
                ),
                Err(e) => e is Io && (exists|t: Seq<char>|
                    final (self).model() == store_set_index(
                        old(self).model(),
                        DescIndex::DescLabelIndex,
                        t,
                    )),
            },
    ;

    /// Replaces the description index of the active space.
    fn set_desc_description_indexes(&mut self, indexes: &str) -> (r: Result<(), StoreError>)
        ensures
            match r {
                Ok(_) => final (self).model() == store_set_index(
                    old(self).model(),
                    DescIndex::DescDescIndex,
                    indexes@,
                ),
                Err(e) => e is Io && (exists|t: Seq<char>|
                    final (self).model() == store_set_index(
                        old(self).model(),
                        DescIndex::DescDescIndex,
                        t,
                    )),
            },
    ;

    /// Points the store at a temporary space; data of other spaces is left
    /// untouched.
    fn set_tmp_space_id(&mut self, space_id: String)
        ensures
            final (self).model() == store_set_tmp(old(self).model(), space_id@),
    ;

    /// Points the store back at its original space.
    fn revert_space_id(&mut self)
        ensures
            final (self).model() == store_revert(old(self).model()),
    ;

    /// The space the store currently works in.
    fn get_space_id(&mut self) -> (r: String)
        ensures
            final (self).model() == old(self).model(),
            r@ == active_space(old(self).model()),
    ;

    /// The point index of the space that a temporary switch to `space_id`
    /// would activate; the store ends pointed back at its original space.
    fn get_tmp_space_desc_point_indexes(&mut self, space_id: String) -> (r: Result<
        String,
        StoreError,
    >)
        ensures
            final (self).model() == store_revert(store_set_tmp(old(self).model(), space_id@)),
            match r {
                Ok(s) => s@ == space_data(
                    old(self).model(),
                    active_space(store_set_tmp(old(self).model(), space_id@)),
                ).point_index,
                Err(e) => e is Io,
            },
    ;
}

} // verus!
