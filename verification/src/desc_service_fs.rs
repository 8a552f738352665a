//! The service wired over a backing store: it owns the director, remembers
//! the original space and application name it was opened with, and carries
//! the temporary-space switch.

use vstd::prelude::*;

use crate::app::App;
use crate::desc_director::{
    all_descs_spec, created_desc_spec, listing_spec, resolve_ordinal_spec, store_create,
    DescDirector,
};
use crate::descriptor::Descriptor;
use crate::descriptor_facade::{
    all_wf_lines, corruption_on, descs_to_map, lines_of, lookup_desc_or_id_spec, point_scan_clean,
    DescIndex, DescriptorFacade, DescriptorMap, StoreError,
};
use crate::descriptor_store::DescriptorStore;
use crate::space::{space_text, Space};
use crate::store_view::{resolve_space_spec, store_revert, store_set_tmp, StoreView};

verus! {

/// The descriptor service: user-facing operations over a backing store, with
/// space control.
pub struct DescServiceFS<T: DescriptorStore> {
    pub descs: DescDirector<T>,
    pub org_space: Space,
    pub tmp_space: Option<Space>,
    pub app_name: App,
}

impl<T: DescriptorStore> DescServiceFS<T> {
    /// The model of the backing store.
    pub closed spec fn model(&self) -> StoreView {
        self.descs.model()
    }

    /// Opens a service over a backing store that was created for the space
    /// `space_id` resolves to.
    pub fn new(app_name: App, space_id: Space, storage: T) -> (r: Self)
        requires
            storage.model().org_space == resolve_space_spec(space_id),
        ensures
            r.model() == storage.model(),
            r.org_space == space_id,
            r.tmp_space is None,
            r.app_name == app_name,
    {
        let desc_facade = DescriptorFacade::new(storage);
        DescServiceFS {
            descs: DescDirector::new(desc_facade),
            org_space: space_id,
            tmp_space: None,
            app_name,
        }
    }

    /// Points the store at a temporary space and remembers it.
    pub fn set_tmp_space_id(&mut self, space_id: String)
        ensures
            final (self).model() == store_set_tmp(old(self).model(), space_id@),
            final (self).tmp_space is Some && space_text(final (self).tmp_space->0) == space_id@,
            final (self).org_space == old(self).org_space,
            final (self).app_name == old(self).app_name,
    {
        self.tmp_space = Some(Space::Definite(space_id.clone()));
        self.descs.set_tmp_space_id(space_id);
    }

    /// Points the store back at the original space it was opened with.
    pub fn revert_space_id(&mut self)
        ensures
            final (self).model() == store_revert(old(self).model()),
            final (self).tmp_space is Some && space_text(final (self).tmp_space->0) == space_text(
                old(self).org_space,
            ),
            final (self).org_space == old(self).org_space,
            final (self).app_name == old(self).app_name,
    {
        self.tmp_space = Some(Space::Definite(self.org_space.to_text()));
        self.descs.revert_space_id();
    }

    /// Creates and saves a descriptor and its indexes in the active space.
    pub fn create_desc(
        &mut self,
        point: String,
        name: String,
        label: String,
        description: String,
    ) -> (r: Result<Descriptor, StoreError>)
        ensures
            match r {
                Ok(d) => d@ == created_desc_spec(point@, name@, label@, description@)
                    && crate::hashing::is_digest(d@.desc_id) && final (self).model()
                    == store_create(
                    old(self).model(),
                    created_desc_spec(point@, name@, label@, description@),
                ),
                Err(e) => e is Io && crate::store_view::only_active_disturbed(
                    old(self).model(),
                    final (self).model(),
                ),
            },
            final (self).org_space == old(self).org_space,
            final (self).tmp_space == old(self).tmp_space,
            final (self).app_name == old(self).app_name,
    {
        self.descs.create_desc(point, name, label, description)
    }

    /// Renders every descriptor note of the active space, one line each, in
    /// creation order.
    pub fn ls_descs(&self) -> (r: Result<String, StoreError>)
        ensures
            match r {
                Ok(s) => all_wf_lines(lines_of(self.model())) && s@ == listing_spec(
                    all_descs_spec(self.model()),
                ),
                Err(e) => e is Io || (!all_wf_lines(lines_of(self.model())) && corruption_on(
                    e,
                    lines_of(self.model()),
                    DescIndex::DescPointIndex,
                )),
            },
    {
        self.descs.ls_descriptor_notes()
    }

    /// The id at the given zero-based ordinal of the listing, or empty text.
    pub fn get_desc_ls_line_number(&self, line_number: String) -> (r: Result<String, StoreError>)
        ensures
            match r {
                Ok(s) => all_wf_lines(lines_of(self.model())) && s@ == resolve_ordinal_spec(
                    self.model(),
                    line_number@,
                ),
                Err(e) => e is Io || (!all_wf_lines(lines_of(self.model())) && corruption_on(
                    e,
                    lines_of(self.model()),
                    DescIndex::DescPointIndex,
                )),
            },
    {
        self.descs.get_desc_ls_line_number(line_number)
    }

    /// Resolves every point of `list` and maps each resulting descriptor by
    /// its point field.
    pub fn get_descs_hashmap_for_list(&self, list: Vec<String>) -> (r: Result<
        DescriptorMap,
        StoreError,
    >)
        ensures
            match r {
                Ok(m) => (forall|i: int|
                    0 <= i < list@.len() ==> #[trigger] point_scan_clean(self.model(), list@[i]@))
                    && m@ == descs_to_map(
                    Seq::new(
                        list@.len(),
                        |i: int| lookup_desc_or_id_spec(self.model(), list@[i]@),
                    ),
                ),
                Err(e) => e is Io || (exists|i: int|
                    0 <= i < list@.len() && !point_scan_clean(self.model(), list@[i]@)),
            },
    {
        self.descs.get_descs_hashmap_for_list(list)
    }
}

} // verus!
