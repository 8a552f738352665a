//! Tests for the director and the service: creation with normalization, the
//! rendered listing, ordinal resolution, and space semantics end to end.

use infospace::app::App;
use infospace::desc_director::DescDirector;
use infospace::desc_service_fs::DescServiceFS;
use infospace::descriptor_facade::DescriptorFacade;
use infospace::descriptor_store_mem::DescriptorStoreMem;
use infospace::space::Space;

fn fresh_director() -> DescDirector<DescriptorStoreMem> {
    let store = DescriptorStoreMem::new(Space::Definite("s1".to_string()));
    DescDirector::new(DescriptorFacade::new(store))
}

fn fresh_service(space: &str) -> DescServiceFS<DescriptorStoreMem> {
    let space_id = Space::Definite(space.to_string());
    let store = DescriptorStoreMem::new(space_id.clone());
    DescServiceFS::new(App::Maybe(None), space_id, store)
}

#[test]
fn create_normalizes_fields() {
    let mut director = fresh_director();
    let d = director.create_desc(
        " a ".to_string(),
        "b\n".to_string(),
        " c".to_string(),
        "d".to_string(),
    ).unwrap();
    assert_eq!(d.point, "a");
    assert_eq!(d.name, "b");
    assert_eq!(d.label, "c");
    assert_eq!(d.description, "d");
    assert_eq!(d.desc_id.len(), 64);
}

#[test]
fn create_trims_description_but_keeps_inner_newlines() {
    let mut director = fresh_director();
    let d = director.create_desc(
        "p".to_string(),
        "n".to_string(),
        "l".to_string(),
        " line one\nline two ".to_string(),
    ).unwrap();
    assert_eq!(d.description, "line one\nline two");
}

#[test]
fn create_dedup_same_id() {
    let mut director = fresh_director();
    let first = director.create_desc(
        " a ".to_string(),
        "b\n".to_string(),
        " c".to_string(),
        "d".to_string(),
    ).unwrap();
    let second = director.create_desc(
        "a".to_string(),
        "b".to_string(),
        "c".to_string(),
        " d ".to_string(),
    ).unwrap();
    assert_eq!(first.desc_id, second.desc_id);
}

#[test]
fn listing_renders_ordinals_and_fields() {
    let mut director = fresh_director();
    assert_eq!(director.ls_descriptor_notes().unwrap(), "");
    director.create_desc(
        "alice".to_string(),
        "Alice".to_string(),
        "friend".to_string(),
        "met at conf".to_string(),
    ).unwrap();
    assert_eq!(
        director.ls_descriptor_notes().unwrap(),
        "0: alice Alice friend met at conf\n"
    );
    director.create_desc(
        "bob".to_string(),
        "Bob".to_string(),
        "peer".to_string(),
        "hi".to_string(),
    ).unwrap();
    assert_eq!(
        director.ls_descriptor_notes().unwrap(),
        "0: alice Alice friend met at conf\n1: bob Bob peer hi\n"
    );
}

#[test]
fn ordinal_resolution() {
    let mut director = fresh_director();
    let a = director.create_desc(
        "a".to_string(),
        "n".to_string(),
        "l".to_string(),
        "d".to_string(),
    ).unwrap();
    let b = director.create_desc(
        "b".to_string(),
        "n2".to_string(),
        "l2".to_string(),
        "d2".to_string(),
    ).unwrap();
    assert_eq!(director.get_desc_ls_line_number("0".to_string()).unwrap(), a.desc_id);
    assert_eq!(director.get_desc_ls_line_number("1".to_string()).unwrap(), b.desc_id);
    assert_eq!(director.get_desc_ls_line_number("2".to_string()).unwrap(), "");
    assert_eq!(director.get_desc_ls_line_number("abc".to_string()).unwrap(), "");
    assert_eq!(director.get_desc_ls_line_number("".to_string()).unwrap(), "");
}

#[test]
fn director_resolve_map() {
    let mut director = fresh_director();
    director.create_desc(
        "x".to_string(),
        "nx".to_string(),
        "lx".to_string(),
        "dx".to_string(),
    ).unwrap();
    let m = director
        .get_descs_hashmap_for_list(vec!["x".to_string(), "nope".to_string()])
        .unwrap();
    assert_eq!(m.get("x").unwrap().name, "nx");
    assert_eq!(m.get("nope").unwrap().point, "nope");
}

#[test]
fn end_to_end_create_get_list() {
    let mut service = fresh_service("s1");
    let d = service.create_desc(
        "alice".to_string(),
        "Alice".to_string(),
        "friend".to_string(),
        "met at conf".to_string(),
    ).unwrap();
    assert_eq!(d.point, "alice");
    assert_eq!(d.name, "Alice");
    assert_eq!(d.label, "friend");
    assert_eq!(d.description, "met at conf");
    assert!(!d.desc_id.is_empty());
    let m = service
        .get_descs_hashmap_for_list(vec!["alice".to_string()])
        .unwrap();
    let got = m.get("alice").unwrap();
    assert_eq!(got.point, d.point);
    assert_eq!(got.name, d.name);
    assert_eq!(got.label, d.label);
    assert_eq!(got.description, d.description);
    assert_eq!(service.ls_descs().unwrap(), "0: alice Alice friend met at conf\n");
}

#[test]
fn space_isolation() {
    let mut service = fresh_service("s1");
    service.create_desc(
        "only_in_s1".to_string(),
        "n".to_string(),
        "l".to_string(),
        "d".to_string(),
    ).unwrap();
    service.set_tmp_space_id("s2".to_string());
    assert_eq!(service.ls_descs().unwrap(), "");
    let m = service
        .get_descs_hashmap_for_list(vec!["only_in_s1".to_string()])
        .unwrap();
    assert_eq!(m.get("only_in_s1").unwrap().name, "");
}

#[test]
fn space_revert_restores_original() {
    let mut service = fresh_service("s1");
    service.create_desc(
        "home".to_string(),
        "n".to_string(),
        "l".to_string(),
        "d".to_string(),
    ).unwrap();
    service.set_tmp_space_id("s2".to_string());
    service.revert_space_id();
    assert_eq!(service.ls_descs().unwrap(), "0: home n l d\n");
}

#[test]
fn spaces_do_not_leak_into_each_other() {
    let mut service = fresh_service("s1");
    service.create_desc(
        "a1".to_string(),
        "n1".to_string(),
        "l1".to_string(),
        "d1".to_string(),
    ).unwrap();
    service.set_tmp_space_id("s2".to_string());
    service.create_desc(
        "a2".to_string(),
        "n2".to_string(),
        "l2".to_string(),
        "d2".to_string(),
    ).unwrap();
    assert_eq!(service.ls_descs().unwrap(), "0: a2 n2 l2 d2\n");
    service.revert_space_id();
    assert_eq!(service.ls_descs().unwrap(), "0: a1 n1 l1 d1\n");
}
