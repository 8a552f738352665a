//! Tests for the in-memory store and the facade: persist-then-index,
//! lookups, listing, the not-found sentinel, and corruption reporting.

use infospace::descriptor::Descriptor;
use infospace::descriptor_facade::{DescriptorFacade, StoreError};
use infospace::descriptor_store::DescriptorStore;
use infospace::descriptor_facade::DescIndex;
use infospace::descriptor_store_mem::DescriptorStoreMem;
use infospace::descriptor_tools;
use infospace::space::Space;

fn fresh_facade() -> DescriptorFacade<DescriptorStoreMem> {
    DescriptorFacade::new(DescriptorStoreMem::new(Space::Definite("s1".to_string())))
}

fn plain_descriptor(point: &str, name: &str, label: &str, description: &str) -> Descriptor {
    Descriptor {
        point: point.to_string(),
        desc_id: String::new(),
        name: name.to_string(),
        label: label.to_string(),
        description: description.to_string(),
    }
}

#[test]
fn index_kinds_have_stable_file_names() {
    assert_eq!(DescIndex::DescPointIndex.file_name(), "Desc_point_index");
    assert_eq!(DescIndex::DescNameIndex.file_name(), "Desc_name_index");
    assert_eq!(DescIndex::DescLabelIndex.file_name(), "Desc_label_index");
    assert_eq!(DescIndex::DescDescIndex.file_name(), "Desc_desc_index");
}

#[test]
fn mem_store_space_defaults() {
    let mut store = DescriptorStoreMem::new(Space::Maybe(None));
    assert_eq!(store.get_space_id(), "default");
    let mut named = DescriptorStoreMem::new(Space::Definite("mine".to_string()));
    assert_eq!(named.get_space_id(), "mine");
}

#[test]
fn mem_store_space_switch_and_revert() {
    let mut store = DescriptorStoreMem::new(Space::Definite("s1".to_string()));
    store.set_tmp_space_id("s2".to_string());
    assert_eq!(store.get_space_id(), "s2");
    store.revert_space_id();
    assert_eq!(store.get_space_id(), "s1");
    // a temporary space equal to the original, or empty, resolves to the
    // original
    store.set_tmp_space_id("s1".to_string());
    assert_eq!(store.get_space_id(), "s1");
    store.set_tmp_space_id(String::new());
    assert_eq!(store.get_space_id(), "s1");
}

#[test]
fn mem_store_blobs_are_per_space() {
    let mut store = DescriptorStoreMem::new(Space::Definite("s1".to_string()));
    store.add_desc(plain_descriptor("p", "n", "l", "d"), "id1".to_string()).unwrap();
    assert_eq!(store.load_desc("id1").unwrap(), "p\nn\nl\nd");
    store.set_tmp_space_id("s2".to_string());
    assert_eq!(store.load_desc("id1").unwrap(), "");
    store.revert_space_id();
    assert_eq!(store.load_desc("id1").unwrap(), "p\nn\nl\nd");
}

#[test]
fn mem_store_indexes_are_per_space() {
    let mut store = DescriptorStoreMem::new(Space::Definite("s1".to_string()));
    store.set_desc_point_indexes("a 1").unwrap();
    assert_eq!(store.get_desc_point_indexes().unwrap(), "a 1");
    assert_eq!(store.get_desc_name_indexes().unwrap(), "");
    store.set_tmp_space_id("s2".to_string());
    assert_eq!(store.get_desc_point_indexes().unwrap(), "");
    store.set_desc_point_indexes("b 2").unwrap();
    store.revert_space_id();
    assert_eq!(store.get_desc_point_indexes().unwrap(), "a 1");
    assert_eq!(store.get_tmp_space_desc_point_indexes("s2".to_string()).unwrap(), "b 2");
    assert_eq!(store.get_space_id(), "s1");
}

#[test]
fn facade_add_and_get() {
    let mut facade = fresh_facade();
    let created = facade.add_desc_n_index(plain_descriptor("alice", "Alice", "friend", "met")).unwrap();
    assert_eq!(created.desc_id.len(), 64);
    let got = facade.get_desc("alice").unwrap();
    assert_eq!(got.point, "alice");
    assert_eq!(got.name, "Alice");
    assert_eq!(got.label, "friend");
    assert_eq!(got.description, "met");
}

#[test]
fn facade_add_desc_returns_id_without_indexing() {
    let mut facade = fresh_facade();
    let id = facade.add_desc(plain_descriptor("p", "n", "l", "d")).unwrap();
    assert_eq!(id, descriptor_tools::create_desc_id("p", "n", "l", "d"));
    // nothing was indexed, so a point lookup still misses
    let got = facade.get_desc("p").unwrap();
    assert_eq!(got.name, "");
    assert_eq!(got.point, "p");
}

#[test]
fn facade_not_found_sentinel() {
    let facade = fresh_facade();
    let got = facade.get_desc("nope").unwrap();
    assert_eq!(got.point, "nope");
    assert_eq!(got.desc_id, "");
    assert_eq!(got.name, "");
    assert_eq!(got.label, "");
    assert_eq!(got.description, "");
}

#[test]
fn facade_get_desc_or_id_falls_back_to_raw_id() {
    let mut facade = fresh_facade();
    let id = facade.add_desc(plain_descriptor("p", "n", "l", "d")).unwrap();
    // not indexed: a point lookup misses, but the id itself resolves
    let got = facade.get_desc_or_id(&id).unwrap();
    assert_eq!(got.point, "p");
    assert_eq!(got.name, "n");
}

#[test]
fn facade_lists_in_creation_order() {
    let mut facade = fresh_facade();
    facade.add_desc_n_index(plain_descriptor("b", "nb", "lb", "db")).unwrap();
    facade.add_desc_n_index(plain_descriptor("a", "na", "la", "da")).unwrap();
    facade.add_desc_n_index(plain_descriptor("c", "nc", "lc", "dc")).unwrap();
    let all = facade.get_all_descs().unwrap();
    let points: Vec<&str> = all.iter().map(|d| d.point.as_str()).collect();
    assert_eq!(points, vec!["b", "a", "c"]);
    let ids = facade.get_all_desc_ids().unwrap();
    assert_eq!(ids.len(), 3);
    assert_eq!(ids[1], descriptor_tools::create_desc_id("a", "na", "la", "da"));
}

#[test]
fn facade_dedup_same_id_and_one_listing_entry_per_create() {
    let mut facade = fresh_facade();
    let first = facade.add_desc_n_index(plain_descriptor(" a ", "b\n", " c", "d")).unwrap();
    let second = facade.add_desc_n_index(plain_descriptor("a", "b", "c", " d ")).unwrap();
    assert_eq!(first.desc_id, second.desc_id);
    // the index gained two lines, both pointing at the one blob
    let ids = facade.get_all_desc_ids().unwrap();
    assert_eq!(ids, vec![first.desc_id.clone(), first.desc_id.clone()]);
}

#[test]
fn facade_get_descs_many() {
    let mut facade = fresh_facade();
    facade.add_desc_n_index(plain_descriptor("x", "nx", "lx", "dx")).unwrap();
    let ds = facade.get_descs(vec!["x", "missing"]).unwrap();
    assert_eq!(ds.len(), 2);
    assert_eq!(ds[0].name, "nx");
    assert_eq!(ds[1].point, "missing");
    assert_eq!(ds[1].name, "");
}

#[test]
fn facade_get_descs_or_else_ids_resolves_points_and_raw_ids() {
    let mut facade = fresh_facade();
    let id = facade.add_desc(plain_descriptor("p", "n", "l", "d")).unwrap();
    facade.add_desc_n_index(plain_descriptor("q", "nq", "lq", "dq")).unwrap();
    let ds = facade
        .get_descs_or_else_ids(vec!["q".to_string(), id, "gone".to_string()])
        .unwrap();
    assert_eq!(ds.len(), 3);
    assert_eq!(ds[0].name, "nq");
    assert_eq!(ds[1].point, "p");
    assert_eq!(ds[2].point, "gone");
    assert_eq!(ds[2].name, "");
}

#[test]
fn facade_keeps_multi_line_descriptions_through_store() {
    let mut facade = fresh_facade();
    facade
        .add_desc_n_index(plain_descriptor("mp", "mn", "ml", "line one\nline two"))
        .unwrap();
    let got = facade.get_desc("mp").unwrap();
    assert_eq!(got.description, "line one\nline two");
}

#[test]
fn io_errors_are_a_distinct_typed_variant() {
    let io = StoreError::Io {
        detail: "disk full".to_string(),
    };
    let corrupt = StoreError::Corruption {
        line: "x".to_string(),
        index: DescIndex::DescPointIndex,
    };
    assert_ne!(io, corrupt);
    assert_eq!(
        io,
        StoreError::Io {
            detail: "disk full".to_string(),
        }
    );
}

#[test]
fn facade_resolve_map_keys_by_point() {
    let mut facade = fresh_facade();
    facade.add_desc_n_index(plain_descriptor("alice", "Alice", "friend", "met")).unwrap();
    let m = facade
        .get_descs_hashmap_for_list(vec![
            "alice".to_string(),
            "zzz".to_string(),
            "alice".to_string(),
        ])
        .unwrap();
    assert!(m.contains_key("alice"));
    assert_eq!(m.get("alice").unwrap().name, "Alice");
    assert_eq!(m.get("zzz").unwrap().name, "");
    assert_eq!(m.get("zzz").unwrap().point, "zzz");
    assert!(m.get("missing").is_none());
}

#[test]
fn facade_reports_corruption() {
    let mut store = DescriptorStoreMem::new(Space::Definite("s1".to_string()));
    store.set_desc_point_indexes("good entry\nmalformed_line_without_space").unwrap();
    let facade = DescriptorFacade::new(store);
    let err = facade.get_all_descs().unwrap_err();
    match err {
        StoreError::Corruption { line, index } => {
            assert_eq!(line, "malformed_line_without_space");
            assert_eq!(index, DescIndex::DescPointIndex);
        },
        StoreError::Io { .. } => panic!("expected a corruption error"),
    }
    assert!(facade.get_desc("entry").is_err());
    assert!(facade.get_desc("good").is_ok());
}

#[test]
fn facade_overwrites_blob_for_same_id() {
    let mut store = DescriptorStoreMem::new(Space::Definite("s1".to_string()));
    store.add_desc(plain_descriptor("p", "n", "l", "d"), "k".to_string()).unwrap();
    store.add_desc(plain_descriptor("p2", "n2", "l2", "d2"), "k".to_string()).unwrap();
    assert_eq!(store.load_desc("k").unwrap(), "p2\nn2\nl2\nd2");
}
