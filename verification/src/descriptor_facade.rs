//! The facade over a descriptor store: it computes ids, enforces
//! "persist, then index", and carries the point-keyed lookup and listing
//! logic, all stated against the store's model.

use vstd::prelude::*;

use crate::descriptor::{deserialize_spec, serialize_spec, DescView, Descriptor};
use crate::descriptor_store::DescriptorStore;

pub use crate::descriptor_store::StoreError;
use crate::descriptor_tools::{build_index_line, desc_id_spec, get_desc_id};
use crate::hashing::{is_digest, lemma_digest_canon_identity};
use crate::store_view::{
    active_data, active_space, blob_or_empty, lemma_add_blob_disturbs_only_active,
    lemma_set_index_disturbs_only_indexes, only_active_disturbed, only_indexes_disturbed,
    store_add_blob, store_index_desc, store_revert, store_set_index, store_set_tmp, StoreView,
};
use crate::text::{
    line_id, line_value, lines_spec, split_index_line, split_lines, string_of, wf_line,
};

pub use crate::store_view::DescIndex;

verus! {

/// What a sequential scan of index lines for a point yields: a malformed
/// line, the id of the first matching line, or nothing.
pub enum ScanOutcome {
    Corrupt(Seq<char>),
    Found(Seq<char>),
    Missing,
}

/// Scans lines in order: the first malformed line wins, else the first line
/// whose value equals `name` yields its id.
pub open spec fn scan_lines(ls: Seq<Seq<char>>, name: Seq<char>) -> ScanOutcome
    decreases ls.len(),
{
    if ls.len() == 0 {
        ScanOutcome::Missing
    } else if !wf_line(ls.first()) {
        ScanOutcome::Corrupt(ls.first())
    } else if line_value(ls.first()) == name {
        ScanOutcome::Found(line_id(ls.first()))
    } else {
        scan_lines(ls.drop_first(), name)
    }
}

/// Whether the scan for `name` met no malformed line.
pub open spec fn point_scan_clean(v: StoreView, name: Seq<char>) -> bool {
    !(point_scan(v, name) is Corrupt)
}

/// The line a corrupt scan stopped at.
pub open spec fn corrupt_line(o: ScanOutcome) -> Seq<char> {
    match o {
        ScanOutcome::Corrupt(l) => l,
        _ => Seq::empty(),
    }
}

/// The point-index lines of the active space.
pub open spec fn lines_of(v: StoreView) -> Seq<Seq<char>> {
    lines_spec(active_data(v).point_index)
}

/// The outcome of scanning the active point index for `name`.
pub open spec fn point_scan(v: StoreView, name: Seq<char>) -> ScanOutcome {
    scan_lines(lines_of(v), name)
}

/// Whether every line of `ls` is well formed.
pub open spec fn all_wf_lines(ls: Seq<Seq<char>>) -> bool {
    forall|i: int| 0 <= i < ls.len() ==> wf_line(ls[i])
}

/// The first malformed line of `ls`.
pub open spec fn first_bad_line(ls: Seq<Seq<char>>) -> Seq<char>
    decreases ls.len(),
{
    if ls.len() == 0 {
        Seq::empty()
    } else if !wf_line(ls.first()) {
        ls.first()
    } else {
        first_bad_line(ls.drop_first())
    }
}

/// A malformed line at `i` behind only well-formed ones is the first one.
proof fn lemma_first_bad_at(ls: Seq<Seq<char>>, i: int)
    requires
        0 <= i < ls.len(),
        forall|j: int| 0 <= j < i ==> wf_line(ls[j]),
        !wf_line(ls[i]),
    ensures
        !all_wf_lines(ls),
        first_bad_line(ls) == ls[i],
    decreases i,
{
    if i > 0 {
        assert(forall|j: int|
            0 <= j < ls.drop_first().len() ==> ls.drop_first()[j] == ls[j + 1]);
        lemma_first_bad_at(ls.drop_first(), i - 1);
    }
}

/// The not-found sentinel: the looked-up point, all else empty.
pub open spec fn sentinel_desc(point: Seq<char>) -> DescView {
    DescView {
        desc_id: Seq::empty(),
        point: point,
        name: Seq::empty(),
        label: Seq::empty(),
        description: Seq::empty(),
    }
}

/// What a point lookup returns when its scan is not corrupt: the parsed blob
/// of the first matching line, or the sentinel when no line matches or the
/// blob is missing.
pub open spec fn lookup_desc_spec(v: StoreView, name: Seq<char>) -> DescView {
    match point_scan(v, name) {
        ScanOutcome::Found(id) => if blob_or_empty(v, id).len() == 0 {
            sentinel_desc(name)
        } else {
            deserialize_spec(blob_or_empty(v, id))
        },
        _ => sentinel_desc(name),
    }
}

/// As [`lookup_desc_spec`], but on total failure the input itself is tried as
/// a raw id before the sentinel is returned.
pub open spec fn lookup_desc_or_id_spec(v: StoreView, name: Seq<char>) -> DescView {
    match point_scan(v, name) {
        ScanOutcome::Found(id) => if blob_or_empty(v, id).len() == 0 {
            raw_id_fallback(v, name)
        } else {
            deserialize_spec(blob_or_empty(v, id))
        },
        _ => raw_id_fallback(v, name),
    }
}

/// The final lookup attempt treating `name` as a raw id.
pub open spec fn raw_id_fallback(v: StoreView, name: Seq<char>) -> DescView {
    if blob_or_empty(v, name).len() == 0 {
        sentinel_desc(name)
    } else {
        deserialize_spec(blob_or_empty(v, name))
    }
}

/// The id a descriptor's fields hash to.
pub open spec fn facade_desc_id(d: DescView) -> Seq<char> {
    desc_id_spec(d.point, d.name, d.label, d.description)
}

/// Whether `e` names the first malformed line of `ls`, found in index `k`.
pub open spec fn corruption_on(e: StoreError, ls: Seq<Seq<char>>, k: DescIndex) -> bool {
    match e {
        StoreError::Corruption { line, index } => line@ == first_bad_line(ls) && index == k,
        StoreError::Io { .. } => false,
    }
}

/// Whether `e` names the line a corrupt scan stopped at, found in index `k`.
pub open spec fn corruption_at(e: StoreError, o: ScanOutcome, k: DescIndex) -> bool {
    match e {
        StoreError::Corruption { line, index } => line@ == corrupt_line(o) && index == k,
        StoreError::Io { .. } => false,
    }
}

/// The mapping a sequence of descriptors folds into, keyed by point, later
/// entries winning.
pub open spec fn descs_to_map(ds: Seq<DescView>) -> Map<Seq<char>, DescView>
    decreases ds.len(),
{
    if ds.len() == 0 {
        Map::empty()
    } else {
        descs_to_map(ds.drop_last()).insert(ds.last().point, ds.last())
    }
}

/// A mapping from point to descriptor with unique keys, a later insertion
/// replacing an earlier one.
pub struct DescriptorMap {
    entries: Vec<Descriptor>,
}

/// The mapping recorded by a journal of insertions, newest winning.
pub open spec fn desc_map_view(s: Seq<Descriptor>) -> Map<Seq<char>, DescView>
    decreases s.len(),
{
    if s.len() == 0 {
        Map::empty()
    } else {
        desc_map_view(s.drop_last()).insert(s.last()@.point, s.last()@)
    }
}

impl View for DescriptorMap {
    type V = Map<Seq<char>, DescView>;

    closed spec fn view(&self) -> Map<Seq<char>, DescView> {
        desc_map_view(self.entries@)
    }
}

impl DescriptorMap {
    /// An empty mapping.
    pub fn new() -> (r: DescriptorMap)
        ensures
            r@ == Map::<Seq<char>, DescView>::empty(),
    {
        DescriptorMap { entries: Vec::new() }
    }

    /// Binds the descriptor's point to the descriptor, replacing any earlier
    /// binding of that point.
    pub fn insert(&mut self, desc: Descriptor)
        ensures
            final (self)@ == old(self)@.insert(desc@.point, desc@),
    {
        self.entries.push(desc);
        proof {
            assert(self.entries@.drop_last() =~= old(self).entries@);
        }
    }

    /// The descriptor bound to `point`, when one is.
    pub fn get(&self, point: &str) -> (r: Option<&Descriptor>)
        ensures
            match r {
                Some(d) => self@.contains_key(point@) && self@[point@] == d@,
                None => !self@.contains_key(point@),
            },
    {
        let n = self.entries.len();
        let mut i: usize = n;
        proof {
            assert(self.entries@.take(n as int) =~= self.entries@);
        }
        while i > 0
            invariant
                0 <= i <= n,
                n == self.entries@.len(),
                self@.contains_key(point@) == desc_map_view(
                    self.entries@.take(i as int),
                ).contains_key(point@),
                self@.contains_key(point@) ==> self@[point@] == desc_map_view(
                    self.entries@.take(i as int),
                )[point@],
            decreases i,
        {
            i = i - 1;
            proof {
                assert(self.entries@.take(i as int + 1).last() == self.entries@[i as int]);
                assert(self.entries@.take(i as int + 1).drop_last() =~= self.entries@.take(
                    i as int,
                ));
            }
            let e = &self.entries[i];
            if crate::text::str_eq(e.point.as_str(), point) {
                return Some(e);
            }
        }
        proof {
            assert(self.entries@.take(0) =~= Seq::<Descriptor>::empty());
        }
        None
    }

    /// Whether any descriptor is bound to `point`.
    pub fn contains_key(&self, point: &str) -> (r: bool)
        ensures
            r == self@.contains_key(point@),
    {
        match self.get(point) {
            Some(_) => true,
            None => false,
        }
    }
}

/// The facade over a backing store: computes ids, persists, indexes, looks
/// up and lists.
pub struct DescriptorFacade<T: DescriptorStore> {
    storage: T,
}

impl<T: DescriptorStore> DescriptorFacade<T> {
    /// The model of the backing store.
    pub closed spec fn model(&self) -> StoreView {
        self.storage.model()
    }

    /// Wraps a backing store.
    pub fn new(storage: T) -> (r: Self)
        ensures
            r.model() == storage.model(),
    {
        DescriptorFacade { storage }
    }

    /// Persists a descriptor's content under its computed id and returns the
    /// id; no index is touched.
    pub fn add_desc(&mut self, desc: Descriptor) -> (r: Result<String, StoreError>)
        ensures
            match r {
                Ok(id) => id@ == facade_desc_id(desc@) && is_digest(id@) && final (self).model()
                    == store_add_blob(
                    old(self).model(),
                    facade_desc_id(desc@),
                    serialize_spec(desc@),
                ),
                Err(e) => e is Io && (exists|c: Seq<char>|
                    final (self).model() == store_add_blob(
                        old(self).model(),
                        facade_desc_id(desc@),
                        c,
                    )),
            },
    {
        let id = get_desc_id(&desc);
        match self.storage.add_desc(desc, id.clone()) {
            Ok(_) => Ok(id),
            Err(e) => Err(e),
        }
    }

    /// Appends the descriptor's four index lines, keyed by its already
    /// populated id.
    pub fn add_desc_index(&mut self, desc: Descriptor) -> (r: Result<(), StoreError>)
        ensures
            match r {
                Ok(_) => final (self).model() == store_index_desc(old(self).model(), desc@),
                Err(e) => e is Io && only_indexes_disturbed(
                    old(self).model(),
                    final (self).model(),
                ),
            },
    {
        let ghost v0 = self.model();
        proof {
            assert(only_indexes_disturbed(v0, v0));
        }
        let point_index = match self.storage.get_desc_point_indexes() {
            Ok(s) => s,
            Err(e) => {
                return Err(e);
            },
        };
        let line = build_index_line(desc.point.as_str(), desc.desc_id.as_str());
        let updated = crate::text::append_line(point_index.as_str(), line.as_str());
        if let Err(e) = self.storage.set_desc_point_indexes(updated.as_str()) {
            proof {
                let t = choose|t: Seq<char>|
                    self.model() == store_set_index(v0, DescIndex::DescPointIndex, t);
                lemma_set_index_disturbs_only_indexes(v0, v0, DescIndex::DescPointIndex, t);
            }
            return Err(e);
        }
        proof {
            lemma_set_index_disturbs_only_indexes(v0, v0, DescIndex::DescPointIndex, updated@);
        }

        let ghost v1 = self.model();
        let name_index = match self.storage.get_desc_name_indexes() {
            Ok(s) => s,
            Err(e) => {
                return Err(e);
            },
        };
        let line = build_index_line(desc.name.as_str(), desc.desc_id.as_str());
        let updated = crate::text::append_line(name_index.as_str(), line.as_str());
        if let Err(e) = self.storage.set_desc_name_indexes(updated.as_str()) {
            proof {
                let t = choose|t: Seq<char>|
                    self.model() == store_set_index(v1, DescIndex::DescNameIndex, t);
                lemma_set_index_disturbs_only_indexes(v0, v1, DescIndex::DescNameIndex, t);
            }
            return Err(e);
        }
        proof {
            lemma_set_index_disturbs_only_indexes(v0, v1, DescIndex::DescNameIndex, updated@);
        }

        let ghost v2 = self.model();
        let label_index = match self.storage.get_desc_label_indexes() {
            Ok(s) => s,
            Err(e) => {
                return Err(e);
            },
        };
        let line = build_index_line(desc.label.as_str(), desc.desc_id.as_str());
        let updated = crate::text::append_line(label_index.as_str(), line.as_str());
        if let Err(e) = self.storage.set_desc_label_indexes(updated.as_str()) {
            proof {
                let t = choose|t: Seq<char>|
                    self.model() == store_set_index(v2, DescIndex::DescLabelIndex, t);
                lemma_set_index_disturbs_only_indexes(v0, v2, DescIndex::DescLabelIndex, t);
            }
            return Err(e);
        }
        proof {
            lemma_set_index_disturbs_only_indexes(v0, v2, DescIndex::DescLabelIndex, updated@);
        }

        let ghost v3 = self.model();
        let description_index = match self.storage.get_desc_description_indexes() {
            Ok(s) => s,
            Err(e) => {
                return Err(e);
            },
        };
        let line = build_index_line(desc.description.as_str(), desc.desc_id.as_str());
        let updated = crate::text::append_line(description_index.as_str(), line.as_str());
        if let Err(e) = self.storage.set_desc_description_indexes(updated.as_str()) {
            proof {
                let t = choose|t: Seq<char>|
                    self.model() == store_set_index(v3, DescIndex::DescDescIndex, t);
                lemma_set_index_disturbs_only_indexes(v0, v3, DescIndex::DescDescIndex, t);
            }
            return Err(e);
        }

        proof {
            assert(self.model() =~~= store_index_desc(v0, desc@));
        }
        Ok(())
    }

    /// Persists a descriptor and its four index lines: the content first,
    /// then the indexes, so no index entry lacks a backing blob.
    pub fn add_desc_n_index(&mut self, desc: Descriptor) -> (r: Result<Descriptor, StoreError>)
        ensures
            match r {
                Ok(rd) => rd@ == (DescView { desc_id: facade_desc_id(desc@), ..desc@ })
                    && is_digest(rd@.desc_id) && final (self).model() == store_index_desc(
                    store_add_blob(
                        old(self).model(),
                        facade_desc_id(desc@),
                        serialize_spec(desc@),
                    ),
                    rd@,
                ),
                Err(e) => e is Io && only_active_disturbed(
                    old(self).model(),
                    final (self).model(),
                ),
            },
    {
        let ghost v0 = self.model();
        let ghost dv = desc@;
        let copy = desc.duplicate();
        let id = match self.add_desc(copy) {
            Ok(id) => id,
            Err(e) => {
                proof {
                    let c = choose|c: Seq<char>|
                        self.model() == store_add_blob(v0, facade_desc_id(dv), c);
                    assert(only_active_disturbed(v0, v0));
                    lemma_add_blob_disturbs_only_active(v0, v0, facade_desc_id(dv), c);
                }
                return Err(e);
            },
        };
        let mut result = desc;
        result.set_desc_id(id.as_str());
        proof {
            lemma_digest_canon_identity(id@);
        }
        let indexed = result.duplicate();
        let ghost v1 = self.model();
        match self.add_desc_index(indexed) {
            Ok(_) => Ok(result),
            Err(e) => {
                proof {
                    assert(only_active_disturbed(v0, v0));
                    lemma_add_blob_disturbs_only_active(
                        v0,
                        v0,
                        facade_desc_id(dv),
                        serialize_spec(dv),
                    );
                    assert(active_space(v1) == active_space(v0));
                    assert(forall|sp: Seq<char>|
                        sp != active_space(v0)
                            ==> #[trigger] crate::store_view::space_data(self.model(), sp)
                            == crate::store_view::space_data(v0, sp));
                }
                Err(e)
            },
        }
    }

    /// Every descriptor of the active space, in point-index append order:
    /// each line's blob is loaded and parsed, a missing blob parsing as the
    /// empty descriptor.  A malformed index line is reported as corruption.
    pub fn get_all_descs(&self) -> (r: Result<Vec<Descriptor>, StoreError>)
        ensures
            match r {
                Ok(ds) => all_wf_lines(lines_of(self.model())) && ds@.len() == lines_of(
                    self.model(),
                ).len() && forall|i: int|
                    0 <= i < ds@.len() ==> ds@[i]@ == deserialize_spec(
                        blob_or_empty(self.model(), line_id(lines_of(self.model())[i])),
                    ),
                Err(e) => e is Io || (!all_wf_lines(lines_of(self.model())) && corruption_on(
                    e,
                    lines_of(self.model()),
                    DescIndex::DescPointIndex,
                )),
            },
    {
        let idx = match self.storage.get_desc_point_indexes() {
            Ok(s) => s,
            Err(e) => {
                return Err(e);
            },
        };
        let ls = split_lines(idx.as_str());
        let ghost lsv = lines_of(self.model());
        let n = ls.len();
        let mut out: Vec<Descriptor> = Vec::new();
        let mut i: usize = 0;
        while i < n
            invariant
                n == ls@.len(),
                lsv == lines_of(self.model()),
                lsv.len() == n,
                forall|j: int| 0 <= j < n ==> ls@[j]@ == lsv[j],
                0 <= i <= n,
                out@.len() == i,
                forall|j: int| 0 <= j < i ==> wf_line(lsv[j]),
                forall|j: int|
                    0 <= j < i ==> out@[j]@ == deserialize_spec(
                        blob_or_empty(self.model(), line_id(lsv[j])),
                    ),
            decreases n - i,
        {
            match split_index_line(ls[i].as_str()) {
                None => {
                    proof {
                        lemma_first_bad_at(lsv, i as int);
                    }
                    return Err(
                        StoreError::Corruption {
                            line: ls[i].clone(),
                            index: DescIndex::DescPointIndex,
                        },
                    );
                },
                Some(parts) => {
                    let content = match self.storage.load_desc(parts.1.as_str()) {
                        Ok(c) => c,
                        Err(e) => {
                            return Err(e);
                        },
                    };
                    out.push(Descriptor::deserialize(content.as_str()));
                },
            }
            i = i + 1;
        }
        Ok(out)
    }

    /// Every descriptor id of the active space, in point-index append order:
    /// what stands after the first space of each line.
    pub fn get_all_desc_ids(&self) -> (r: Result<Vec<String>, StoreError>)
        ensures
            match r {
                Ok(ids) => all_wf_lines(lines_of(self.model())) && ids@.len() == lines_of(
                    self.model(),
                ).len() && forall|i: int|
                    0 <= i < ids@.len() ==> ids@[i]@ == line_id(lines_of(self.model())[i]),
                Err(e) => e is Io || (!all_wf_lines(lines_of(self.model())) && corruption_on(
                    e,
                    lines_of(self.model()),
                    DescIndex::DescPointIndex,
                )),
            },
    {
        let idx = match self.storage.get_desc_point_indexes() {
            Ok(s) => s,
            Err(e) => {
                return Err(e);
            },
        };
        let ls = split_lines(idx.as_str());
        let ghost lsv = lines_of(self.model());
        let n = ls.len();
        let mut out: Vec<String> = Vec::new();
        let mut i: usize = 0;
        while i < n
            invariant
                n == ls@.len(),
                lsv == lines_of(self.model()),
                lsv.len() == n,
                forall|j: int| 0 <= j < n ==> ls@[j]@ == lsv[j],
                0 <= i <= n,
                out@.len() == i,
                forall|j: int| 0 <= j < i ==> wf_line(lsv[j]),
                forall|j: int| 0 <= j < i ==> out@[j]@ == line_id(lsv[j]),
            decreases n - i,
        {
            match split_index_line(ls[i].as_str()) {
                None => {
                    proof {
                        lemma_first_bad_at(lsv, i as int);
                    }
                    return Err(
                        StoreError::Corruption {
                            line: ls[i].clone(),
                            index: DescIndex::DescPointIndex,
                        },
                    );
                },
                Some(parts) => {
                    out.push(parts.1);
                },
            }
            i = i + 1;
        }
        Ok(out)
    }

    /// Looks one point up in the point index; "not found" is the sentinel
    /// value, not an error.
    pub fn get_desc(&self, name: &str) -> (r: Result<Descriptor, StoreError>)
        ensures
            match r {
                Ok(d) => !(point_scan(self.model(), name@) is Corrupt) && d@ == lookup_desc_spec(
                    self.model(),
                    name@,
                ),
                Err(e) => e is Io || (point_scan(self.model(), name@) is Corrupt
                    && corruption_at(
                    e,
                    point_scan(self.model(), name@),
                    DescIndex::DescPointIndex,
                )),
            },
    {
        match self.find_point_id(name) {
            Err(e) => Err(e),
            Ok(Some(id)) => {
                let content = match self.storage.load_desc(id.as_str()) {
                    Ok(c) => c,
                    Err(e) => {
                        return Err(e);
                    },
                };
                if content.as_str().is_empty() {
                    Ok(sentinel_for(name))
                } else {
                    Ok(Descriptor::deserialize(content.as_str()))
                }
            },
            Ok(None) => Ok(sentinel_for(name)),
        }
    }

    /// As [`Self::get_desc`], but on total failure the input itself is tried
    /// as a raw id before the sentinel is returned.
    pub fn get_desc_or_id(&self, name: &str) -> (r: Result<Descriptor, StoreError>)
        ensures
            match r {
                Ok(d) => !(point_scan(self.model(), name@) is Corrupt) && d@
                    == lookup_desc_or_id_spec(self.model(), name@),
                Err(e) => e is Io || (point_scan(self.model(), name@) is Corrupt
                    && corruption_at(
                    e,
                    point_scan(self.model(), name@),
                    DescIndex::DescPointIndex,
                )),
            },
    {
        match self.find_point_id(name) {
            Err(e) => Err(e),
            Ok(Some(id)) => {
                let content = match self.storage.load_desc(id.as_str()) {
                    Ok(c) => c,
                    Err(e) => {
                        return Err(e);
                    },
                };
                if content.as_str().is_empty() {
                    self.raw_id_lookup(name)
                } else {
                    Ok(Descriptor::deserialize(content.as_str()))
                }
            },
            Ok(None) => self.raw_id_lookup(name),
        }
    }

    /// The final lookup attempt treating `name` as a raw id.
    fn raw_id_lookup(&self, name: &str) -> (r: Result<Descriptor, StoreError>)
        ensures
            match r {
                Ok(d) => d@ == raw_id_fallback(self.model(), name@),
                Err(e) => e is Io,
            },
    {
        let content = match self.storage.load_desc(name) {
            Ok(c) => c,
            Err(e) => {
                return Err(e);
            },
        };
        if content.as_str().is_empty() {
            Ok(sentinel_for(name))
        } else {
            Ok(Descriptor::deserialize(content.as_str()))
        }
    }

    /// Scans the point index for `name`: the id of the first matching line,
    /// nothing when no line matches, or the first malformed line met.
    fn find_point_id(&self, name: &str) -> (r: Result<Option<String>, StoreError>)
        ensures
            match r {
                Ok(Some(id)) => point_scan(self.model(), name@) == ScanOutcome::Found(id@),
                Ok(None) => point_scan(self.model(), name@) is Missing,
                Err(e) => e is Io || (point_scan(self.model(), name@) is Corrupt
                    && corruption_at(
                    e,
                    point_scan(self.model(), name@),
                    DescIndex::DescPointIndex,
                )),
            },
    {
        let idx = match self.storage.get_desc_point_indexes() {
            Ok(s) => s,
            Err(e) => {
                return Err(e);
            },
        };
        let ls = split_lines(idx.as_str());
        let ghost lsv = lines_of(self.model());
        let key = string_of(name);
        let n = ls.len();
        let mut i: usize = 0;
        proof {
            assert(lsv.skip(0) =~= lsv);
        }
        while i < n
            invariant
                n == ls@.len(),
                lsv == lines_of(self.model()),
                lsv.len() == n,
                forall|j: int| 0 <= j < n ==> ls@[j]@ == lsv[j],
                0 <= i <= n,
                key@ == name@,
                scan_lines(lsv, name@) == scan_lines(lsv.skip(i as int), name@),
            decreases n - i,
        {
            proof {
                assert(lsv.skip(i as int).first() == lsv[i as int]);
                assert(lsv.skip(i as int).drop_first() =~= lsv.skip(i as int + 1));
            }
            match split_index_line(ls[i].as_str()) {
                None => {
                    return Err(
                        StoreError::Corruption {
                            line: ls[i].clone(),
                            index: DescIndex::DescPointIndex,
                        },
                    );
                },
                Some(parts) => {
                    if parts.0.eq(&key) {
                        return Ok(Some(parts.1));
                    }
                },
            }
            i = i + 1;
        }
        proof {
            assert(lsv.skip(n as int) =~= Seq::<Seq<char>>::empty());
        }
        Ok(None)
    }

    /// Looks every point of `points` up, in order.
    pub fn get_descs(&self, points: Vec<&str>) -> (r: Result<Vec<Descriptor>, StoreError>)
        ensures
            match r {
                Ok(ds) => ds@.len() == points@.len() && (forall|i: int|
                    0 <= i < points@.len() ==> #[trigger] point_scan_clean(
                        self.model(),
                        points@[i]@,
                    )) && forall|i: int|
                    0 <= i < points@.len() ==> ds@[i]@ == lookup_desc_spec(
                        self.model(),
                        points@[i]@,
                    ),
                Err(e) => e is Io || (exists|i: int|
                    0 <= i < points@.len() && point_scan(self.model(), points@[i]@) is Corrupt
                        && corruption_at(
                        e,
                        point_scan(self.model(), points@[i]@),
                        DescIndex::DescPointIndex,
                    )),
            },
    {
        let n = points.len();
        let mut out: Vec<Descriptor> = Vec::new();
        let mut i: usize = 0;
        while i < n
            invariant
                n == points@.len(),
                0 <= i <= n,
                out@.len() == i,
                forall|j: int|
                    0 <= j < i ==> #[trigger] point_scan_clean(self.model(), points@[j]@),
                forall|j: int|
                    0 <= j < i ==> out@[j]@ == lookup_desc_spec(self.model(), points@[j]@),
            decreases n - i,
        {
            let ghost pre = out@;
            match self.get_desc(points[i]) {
                Ok(d) => {
                    out.push(d);
                    proof {
                        assert(forall|j: int| 0 <= j < pre.len() ==> out@[j] == pre[j]);
                        assert(point_scan_clean(self.model(), points@[i as int]@));
                        assert(out@[i as int]@ == lookup_desc_spec(
                            self.model(),
                            points@[i as int]@,
                        ));
                    }
                },
                Err(e) => {
                    return Err(e);
                },
            }
            i = i + 1;
        }
        Ok(out)
    }

    /// Looks every point of `points` up, in order, each with the raw-id
    /// fallback.
    pub fn get_descs_or_else_ids(&self, points: Vec<String>) -> (r: Result<
        Vec<Descriptor>,
        StoreError,
    >)
        ensures
            match r {
                Ok(ds) => ds@.len() == points@.len() && (forall|i: int|
                    0 <= i < points@.len() ==> #[trigger] point_scan_clean(
                        self.model(),
                        points@[i]@,
                    )) && forall|i: int|
                    0 <= i < points@.len() ==> ds@[i]@ == lookup_desc_or_id_spec(
                        self.model(),
                        points@[i]@,
                    ),
                Err(e) => e is Io || (exists|i: int|
                    0 <= i < points@.len() && point_scan(self.model(), points@[i]@) is Corrupt
                        && corruption_at(
                        e,
                        point_scan(self.model(), points@[i]@),
                        DescIndex::DescPointIndex,
                    )),
            },
    {
        let n = points.len();
        let mut out: Vec<Descriptor> = Vec::new();
        let mut i: usize = 0;
        while i < n
            invariant
                n == points@.len(),
                0 <= i <= n,
                out@.len() == i,
                forall|j: int|
                    0 <= j < i ==> #[trigger] point_scan_clean(self.model(), points@[j]@),
                forall|j: int|
                    0 <= j < i ==> out@[j]@ == lookup_desc_or_id_spec(self.model(), points@[j]@),
            decreases n - i,
        {
            let ghost pre = out@;
            match self.get_desc_or_id(points[i].as_str()) {
                Ok(d) => {
                    out.push(d);
                    proof {
                        assert(forall|j: int| 0 <= j < pre.len() ==> out@[j] == pre[j]);
                        assert(out@.last()@ == lookup_desc_or_id_spec(
                            self.model(),
                            points@[i as int]@,
                        ));
                    }
                },
                Err(e) => {
                    return Err(e);
                },
            }
            i = i + 1;
        }
        Ok(out)
    }

    /// Resolves every point of `list` and maps each resulting descriptor by
    /// its point field, later entries winning.
    pub fn get_descs_hashmap_for_list(&self, list: Vec<String>) -> (r: Result<
        DescriptorMap,
        StoreError,
    >)
        ensures
            match r {
                Ok(m) => (forall|i: int|
                    0 <= i < list@.len() ==> #[trigger] point_scan_clean(self.model(), list@[i]@))
                    && m@ == descs_to_map(
                    Seq::new(
                        list@.len(),
                        |i: int| lookup_desc_or_id_spec(self.model(), list@[i]@),
                    ),
                ),
                Err(e) => e is Io || (exists|i: int|
                    0 <= i < list@.len() && point_scan(self.model(), list@[i]@) is Corrupt),
            },
    {
        let ghost target = Seq::new(
            list@.len(),
            |i: int| lookup_desc_or_id_spec(self.model(), list@[i]@),
        );
        let n = list.len();
        let mut m = DescriptorMap::new();
        let mut i: usize = 0;
        while i < n
            invariant
                n == list@.len(),
                0 <= i <= n,
                target == Seq::new(
                    list@.len(),
                    |i: int| lookup_desc_or_id_spec(self.model(), list@[i]@),
                ),
                forall|j: int|
                    0 <= j < i ==> #[trigger] point_scan_clean(self.model(), list@[j]@),
                m@ == descs_to_map(target.take(i as int)),
            decreases n - i,
        {
            match self.get_desc_or_id(list[i].as_str()) {
                Ok(d) => {
                    m.insert(d);
                    proof {
                        assert(target.take(i as int + 1).drop_last() =~= target.take(i as int));
                        assert(target.take(i as int + 1).last() == target[i as int]);
                    }
                },
                Err(e) => {
                    return Err(e);
                },
            }
            i = i + 1;
        }
        proof {
            assert(target.take(n as int) =~= target);
        }
        Ok(m)
    }

    /// Points the store at a temporary space.
    pub fn set_tmp_space_id(&mut self, space_id: String)
        ensures
            final (self).model() == store_set_tmp(old(self).model(), space_id@),
    {
        self.storage.set_tmp_space_id(space_id);
    }

    /// Points the store back at its original space.
    pub fn revert_space_id(&mut self)
        ensures
            final (self).model() == store_revert(old(self).model()),
    {
        self.storage.revert_space_id();
    }

    /// The space the store currently works in.
    pub fn get_space_id(&mut self) -> (r: String)
        ensures
            final (self).model() == old(self).model(),
            r@ == active_space(old(self).model()),
    {
        self.storage.get_space_id()
    }
}

/// The not-found sentinel for a point.
fn sentinel_for(point: &str) -> (r: Descriptor)
    ensures
        r@ == sentinel_desc(point@),
{
    Descriptor {
        desc_id: String::new(),
        point: string_of(point),
        name: String::new(),
        label: String::new(),
        description: String::new(),
    }
}

} // verus!
