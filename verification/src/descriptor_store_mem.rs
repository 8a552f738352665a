//! The in-memory storage medium: an append-only journal of blob and index
//! writes, read back newest-first.  It implements the full storage port and
//! is the store the tests run against.

use vstd::prelude::*;

use crate::descriptor::Descriptor;
use crate::descriptor_store::{DescriptorStore, StoreError};
use crate::space::Space;
use crate::store_view::{
    active_data, active_space, blob_or_empty, empty_space, initial_store, resolve_space_name,
    resolve_space_spec, space_data, store_add_blob, store_revert, store_set_index, store_set_tmp,
    DescIndex, SpaceView, StoreView,
};
use crate::text::string_of;

verus! {

/// One recorded blob write: a space, a content id, and the content.
pub struct MemBlob {
    pub space: String,
    pub desc_id: String,
    pub content: String,
}

/// One recorded index write: a space, an index kind, and the whole index
/// text as of that write.
pub struct MemIndex {
    pub space: String,
    pub kind: DescIndex,
    pub text: String,
}

/// An in-memory descriptor store: writes are appended to journals, reads
/// take the newest matching record.
pub struct DescriptorStoreMem {
    blobs: Vec<MemBlob>,
    indexes: Vec<MemIndex>,
    org_space: String,
    tmp_space: Option<String>,
}

/// The newest blob recorded for `(sp, id)`, if any.
pub open spec fn seq_blob(s: Seq<MemBlob>, sp: Seq<char>, id: Seq<char>) -> Option<Seq<char>>
    decreases s.len(),
{
    if s.len() == 0 {
        None
    } else if s.last().space@ == sp && s.last().desc_id@ == id {
        Some(s.last().content@)
    } else {
        seq_blob(s.drop_last(), sp, id)
    }
}

/// The newest text recorded for index `k` of space `sp`, or empty.
pub open spec fn seq_index(s: Seq<MemIndex>, sp: Seq<char>, k: DescIndex) -> Seq<char>
    decreases s.len(),
{
    if s.len() == 0 {
        Seq::empty()
    } else if s.last().space@ == sp && s.last().kind == k {
        s.last().text@
    } else {
        seq_index(s.drop_last(), sp, k)
    }
}

/// The blob value behind [`seq_blob`], empty when there is none.
pub open spec fn seq_blob_value(s: Seq<MemBlob>, sp: Seq<char>, id: Seq<char>) -> Seq<char> {
    match seq_blob(s, sp, id) {
        Some(c) => c,
        None => Seq::empty(),
    }
}

/// The contents of space `sp` as the journals record them.
pub open spec fn mem_space(b: Seq<MemBlob>, ix: Seq<MemIndex>, sp: Seq<char>) -> SpaceView {
    SpaceView {
        blobs: Map::new(
            |id: Seq<char>| seq_blob(b, sp, id) is Some,
            |id: Seq<char>| seq_blob_value(b, sp, id),
        ),
        point_index: seq_index(ix, sp, DescIndex::DescPointIndex),
        name_index: seq_index(ix, sp, DescIndex::DescNameIndex),
        label_index: seq_index(ix, sp, DescIndex::DescLabelIndex),
        description_index: seq_index(ix, sp, DescIndex::DescDescIndex),
    }
}

/// Appending a blob record changes exactly the `(space, id)` it names.
proof fn lemma_push_blob(b: Seq<MemBlob>, e: MemBlob, sp: Seq<char>, id: Seq<char>)
    ensures
        seq_blob(b.push(e), sp, id) == if e.space@ == sp && e.desc_id@ == id {
            Some(e.content@)
        } else {
            seq_blob(b, sp, id)
        },
{
    assert(b.push(e).last() == e);
    assert(b.push(e).drop_last() =~= b);
}

/// Appending an index record changes exactly the `(space, kind)` it names.
proof fn lemma_push_index(ix: Seq<MemIndex>, e: MemIndex, sp: Seq<char>, k: DescIndex)
    ensures
        seq_index(ix.push(e), sp, k) == if e.space@ == sp && e.kind == k {
            e.text@
        } else {
            seq_index(ix, sp, k)
        },
{
    assert(ix.push(e).last() == e);
    assert(ix.push(e).drop_last() =~= ix);
}

impl DescriptorStoreMem {
    /// Opens an empty in-memory store on the space `space_id` resolves to.
    pub fn new(space_id: Space) -> (r: Self)
        ensures
            r.model() == initial_store(resolve_space_spec(space_id)),
    {
        let r = DescriptorStoreMem {
            blobs: Vec::new(),
            indexes: Vec::new(),
            org_space: resolve_space_name(&space_id),
            tmp_space: None,
        };
        proof {
            assert forall|sp: Seq<char>|
                #[trigger] mem_space(r.blobs@, r.indexes@, sp) =~~= empty_space() by {
                assert(mem_space(r.blobs@, r.indexes@, sp).blobs =~= Map::<
                    Seq<char>,
                    Seq<char>,
                >::empty());
            }
            assert(r.model() =~~= initial_store(resolve_space_spec(space_id)));
        }
        r
    }

    /// The name of the space this store currently works in.
    fn active_space_name(&self) -> (r: String)
        ensures
            r@ == active_space(self.model()),
    {
        match &self.tmp_space {
            None => self.org_space.clone(),
            Some(t) => {
                if t.as_str().is_empty() {
                    self.org_space.clone()
                } else if t.eq(&self.org_space) {
                    self.org_space.clone()
                } else {
                    t.clone()
                }
            },
        }
    }
}

impl DescriptorStore for DescriptorStoreMem {
    closed spec fn model(&self) -> StoreView {
        StoreView {
            spaces: Map::new(
                |sp: Seq<char>| true,
                |sp: Seq<char>| mem_space(self.blobs@, self.indexes@, sp),
            ),
            org_space: self.org_space@,
            tmp_space: match self.tmp_space {
                Some(t) => Some(t@),
                None => None,
            },
        }
    }

    fn add_desc(&mut self, desc: Descriptor, id: String) -> (r: Result<(), StoreError>) {
        let space = self.active_space_name();
        let content = desc.serialize();
        let ghost pre = *self;
        self.blobs.push(MemBlob { space, desc_id: id, content });
        proof {
            let v = pre.model();
            let e = self.blobs@.last();
            let a = active_space(v);
            assert forall|sp: Seq<char>, id2: Seq<char>|
                #[trigger] seq_blob(self.blobs@, sp, id2) == if sp == a && id2 == e.desc_id@ {
                    Some(e.content@)
                } else {
                    seq_blob(pre.blobs@, sp, id2)
                } by {
                lemma_push_blob(pre.blobs@, e, sp, id2);
            }
            assert(self.model() =~~= store_add_blob(v, e.desc_id@, e.content@)) by {
                assert forall|sp: Seq<char>|
                    #[trigger] self.model().spaces[sp] =~~= store_add_blob(
                        v,
                        e.desc_id@,
                        e.content@,
                    ).spaces[sp] by {
                    if sp == a {
                        assert(mem_space(self.blobs@, self.indexes@, sp).blobs =~= space_data(
                            v,
                            a,
                        ).blobs.insert(e.desc_id@, e.content@));
                    } else {
                        assert(mem_space(self.blobs@, self.indexes@, sp).blobs =~= mem_space(
                            pre.blobs@,
                            pre.indexes@,
                            sp,
                        ).blobs);
                    }
                }
            }
        }
        Ok(())
    }

    fn load_desc(&self, desc_id: &str) -> (r: Result<String, StoreError>) {
        let space = self.active_space_name();
        let key = string_of(desc_id);
        let n = self.blobs.len();
        let mut i: usize = n;
        proof {
            assert(self.blobs@.take(n as int) =~= self.blobs@);
        }
        while i > 0
            invariant
                0 <= i <= n,
                n == self.blobs@.len(),
                space@ == active_space(self.model()),
                key@ == desc_id@,
                seq_blob(self.blobs@, space@, key@) == seq_blob(
                    self.blobs@.take(i as int),
                    space@,
                    key@,
                ),
            decreases i,
        {
            i = i - 1;
            let e = &self.blobs[i];
            proof {
                assert(self.blobs@.take(i as int + 1).last() == self.blobs@[i as int]);
                assert(self.blobs@.take(i as int + 1).drop_last() =~= self.blobs@.take(i as int));
            }
            if e.space.eq(&space) && e.desc_id.eq(&key) {
                proof {
                    assert(seq_blob(self.blobs@, space@, key@) == Some(e.content@));
                    assert(active_data(self.model()).blobs.contains_key(key@));
                    assert(blob_or_empty(self.model(), desc_id@) == e.content@);
                }
                return Ok(e.content.clone());
            }
        }
        proof {
            assert(self.blobs@.take(0) =~= Seq::<MemBlob>::empty());
            assert(seq_blob(self.blobs@, space@, key@) is None);
            assert(!active_data(self.model()).blobs.contains_key(key@));
        }
        Ok(String::new())
    }

    fn get_desc_point_indexes(&self) -> (r: Result<String, StoreError>) {
        Ok(self.read_index(DescIndex::DescPointIndex))
    }

    fn get_desc_name_indexes(&self) -> (r: Result<String, StoreError>) {
        Ok(self.read_index(DescIndex::DescNameIndex))
    }

    fn get_desc_label_indexes(&self) -> (r: Result<String, StoreError>) {
        Ok(self.read_index(DescIndex::DescLabelIndex))
    }

    fn get_desc_description_indexes(&self) -> (r: Result<String, StoreError>) {
        Ok(self.read_index(DescIndex::DescDescIndex))
    }

    fn set_desc_point_indexes(&mut self, indexes: &str) -> (r: Result<(), StoreError>) {
        self.write_index(DescIndex::DescPointIndex, indexes);
        Ok(())
    }

    fn set_desc_name_indexes(&mut self, indexes: &str) -> (r: Result<(), StoreError>) {
        self.write_index(DescIndex::DescNameIndex, indexes);
        Ok(())
    }

    fn set_desc_label_indexes(&mut self, indexes: &str) -> (r: Result<(), StoreError>) {
        self.write_index(DescIndex::DescLabelIndex, indexes);
        Ok(())
    }

    fn set_desc_description_indexes(&mut self, indexes: &str) -> (r: Result<(), StoreError>) {
        self.write_index(DescIndex::DescDescIndex, indexes);
        Ok(())
    }

    fn set_tmp_space_id(&mut self, space_id: String) {
        let ghost pre = *self;
        self.tmp_space = Some(space_id);
        proof {
            assert(self.model() =~~= store_set_tmp(pre.model(), self.tmp_space->0@));
        }
    }

    fn revert_space_id(&mut self) {
        let ghost pre = *self;
        self.tmp_space = Some(self.org_space.clone());
        proof {
            assert(self.model() =~~= store_revert(pre.model()));
        }
    }

    fn get_space_id(&mut self) -> (r: String) {
        self.active_space_name()
    }

    fn get_tmp_space_desc_point_indexes(&mut self, space_id: String) -> (r: Result<
        String,
        StoreError,
    >) {
        self.set_tmp_space_id(space_id);
        let r = self.get_desc_point_indexes();
        self.revert_space_id();
        r
    }
}

impl DescriptorStoreMem {
    /// The newest recorded text of index `k` in the active space.
    fn read_index(&self, k: DescIndex) -> (r: String)
        ensures
            r@ == index_text_of(self.model(), k),
    {
        let space = self.active_space_name();
        let n = self.indexes.len();
        let mut i: usize = n;
        proof {
            assert(self.indexes@.take(n as int) =~= self.indexes@);
        }
        while i > 0
            invariant
                0 <= i <= n,
                n == self.indexes@.len(),
                space@ == active_space(self.model()),
                seq_index(self.indexes@, space@, k) == seq_index(
                    self.indexes@.take(i as int),
                    space@,
                    k,
                ),
            decreases i,
        {
            i = i - 1;
            let e = &self.indexes[i];
            proof {
                assert(self.indexes@.take(i as int + 1).last() == self.indexes@[i as int]);
                assert(self.indexes@.take(i as int + 1).drop_last() =~= self.indexes@.take(
                    i as int,
                ));
            }
            if e.space.eq(&space) && e.kind == k {
                proof {
                    assert(seq_index(self.indexes@, space@, k) == e.text@);
                }
                return e.text.clone();
            }
        }
        proof {
            assert(self.indexes@.take(0) =~= Seq::<MemIndex>::empty());
        }
        String::new()
    }

    /// Records a new text for index `k` in the active space.
    fn write_index(&mut self, k: DescIndex, text: &str)
        ensures
            final (self).model() == store_set_index(old(self).model(), k, text@),
    {
        let space = self.active_space_name();
        let ghost pre = *self;
        self.indexes.push(MemIndex { space, kind: k, text: string_of(text) });
        proof {
            let v = pre.model();
            let e = self.indexes@.last();
            let a = active_space(v);
            assert forall|sp: Seq<char>, k2: DescIndex|
                #[trigger] seq_index(self.indexes@, sp, k2) == if sp == a && k2 == e.kind {
                    e.text@
                } else {
                    seq_index(pre.indexes@, sp, k2)
                } by {
                lemma_push_index(pre.indexes@, e, sp, k2);
            }
            assert(self.model() =~~= store_set_index(v, k, e.text@)) by {
                assert forall|sp: Seq<char>|
                    #[trigger] self.model().spaces[sp] =~~= store_set_index(
                        v,
                        k,
                        e.text@,
                    ).spaces[sp] by {
                    assert(mem_space(self.blobs@, self.indexes@, sp).blobs =~= mem_space(
                        pre.blobs@,
                        pre.indexes@,
                        sp,
                    ).blobs);
                }
            }
        }
    }
}

/// The text of index `k` in the active space of `v`.
pub open spec fn index_text_of(v: StoreView, k: DescIndex) -> Seq<char> {
    crate::store_view::index_text(active_data(v), k)
}

} // verus!
