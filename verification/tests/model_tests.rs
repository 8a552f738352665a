//! Tests for the descriptor model, the id/index-line codec, and the App and
//! Space identifiers.

use infospace::app::App;
use infospace::descriptor::Descriptor;
use infospace::descriptor_tools;
use infospace::space::Space;

fn mock_descriptor() -> Descriptor {
    Descriptor {
        point: "point".to_string(),
        desc_id: "desc_id".to_string(),
        name: "name".to_string(),
        label: "label".to_string(),
        description: "description\nWhich may be \nmultiple lines \nlong.".to_string(),
    }
}

#[test]
fn to_one_string_test() {
    let descriptor = mock_descriptor();
    let ideal: String = String::from(
        "point
name
label
description\nWhich may be \nmultiple lines \nlong.",
    );
    assert_eq!(descriptor.serialize(), ideal);
}

#[test]
fn serialize_canonicalizes_single_line_fields() {
    let descriptor = Descriptor {
        point: "  a point\r\n".to_string(),
        desc_id: String::new(),
        name: "na\nme".to_string(),
        label: " label ".to_string(),
        description: " kept as is ".to_string(),
    };
    assert_eq!(descriptor.serialize(), "a point\nname\nlabel\n kept as is ");
}

#[test]
fn deserialize_reads_four_lines() {
    let d = Descriptor::deserialize("p\nn\nl\nd");
    assert_eq!(d.point, "p");
    assert_eq!(d.name, "n");
    assert_eq!(d.label, "l");
    assert_eq!(d.description, "d");
    assert_eq!(d.desc_id, "");
}

#[test]
fn deserialize_empty_yields_empty_descriptor() {
    let d = Descriptor::deserialize("");
    assert_eq!(d, Descriptor::default());
}

#[test]
fn deserialize_keeps_multi_line_description() {
    let d = Descriptor::deserialize("p\nn\nl\nfirst\nsecond");
    assert_eq!(d.description, "first\nsecond");
}

#[test]
fn deserialize_handles_crlf_line_endings() {
    let d = Descriptor::deserialize("p\r\nn\r\nl\r\nd");
    assert_eq!(d.point, "p");
    assert_eq!(d.name, "n");
    assert_eq!(d.label, "l");
    assert_eq!(d.description, "d");
}

#[test]
fn deserialize_with_trailing_newline_gives_empty_description() {
    let d = Descriptor::deserialize("p\nn\nl\n");
    assert_eq!(d.point, "p");
    assert_eq!(d.description, "");
}

#[test]
fn round_trip_preserves_clean_descriptors() {
    let d = Descriptor {
        point: "alpha".to_string(),
        desc_id: String::new(),
        name: "Beta".to_string(),
        label: "gamma".to_string(),
        description: "met at conf".to_string(),
    };
    let back = Descriptor::deserialize(&d.serialize());
    assert_eq!(back, d);
}

#[test]
fn round_trip_preserves_multi_line_descriptions() {
    let d = Descriptor {
        point: "alpha".to_string(),
        desc_id: String::new(),
        name: "Beta".to_string(),
        label: "gamma".to_string(),
        description: "one\ntwo\n three ".to_string(),
    };
    let back = Descriptor::deserialize(&d.serialize());
    assert_eq!(back, d);
}

#[test]
fn setters_canonicalize() {
    let mut d = Descriptor::default();
    d.set_desc_id(" id\n ");
    d.set_name(" a\nname ");
    d.set_label("\tl\r");
    d.set_description(" raw \n kept ");
    assert_eq!(d.desc_id, "id");
    assert_eq!(d.name, "aname");
    assert_eq!(d.label, "l");
    assert_eq!(d.description, " raw \n kept ");
}

#[test]
fn mock_with_id_marks_every_field() {
    let d = Descriptor::mock_with_id("m1");
    assert_eq!(d.point, "m1");
    assert_eq!(d.desc_id, "m1");
    assert_eq!(d.name, "m1");
    assert_eq!(d.label, "m1");
    assert_eq!(
        d.description,
        "Description\nWhich may be \nmultiple lines \nlongm1"
    );
}

#[test]
fn desc_id_is_deterministic() {
    let a = descriptor_tools::create_desc_id("p", "n", "l", "d");
    let b = descriptor_tools::create_desc_id("p", "n", "l", "d");
    assert_eq!(a, b);
}

#[test]
fn desc_id_ignores_surrounding_whitespace_and_newlines() {
    let a = descriptor_tools::create_desc_id(" p \n", "n\r\n", " l", " d ");
    let b = descriptor_tools::create_desc_id("p", "n", "l", "d");
    assert_eq!(a, b);
}

#[test]
fn desc_id_is_a_digest() {
    let id = descriptor_tools::create_desc_id("p", "n", "l", "d");
    assert_eq!(id.len(), 64);
    assert!(id.chars().all(|c| c.is_ascii_hexdigit() && !c.is_ascii_uppercase()));
}

#[test]
fn desc_id_changes_with_any_field() {
    let base = descriptor_tools::create_desc_id("p", "n", "l", "d");
    assert_ne!(descriptor_tools::create_desc_id("q", "n", "l", "d"), base);
    assert_ne!(descriptor_tools::create_desc_id("p", "m", "l", "d"), base);
    assert_ne!(descriptor_tools::create_desc_id("p", "n", "k", "d"), base);
    assert_ne!(descriptor_tools::create_desc_id("p", "n", "l", "e"), base);
}

#[test]
fn get_desc_id_matches_create_desc_id() {
    let d = Descriptor {
        point: "p".to_string(),
        desc_id: String::new(),
        name: "n".to_string(),
        label: "l".to_string(),
        description: "d".to_string(),
    };
    assert_eq!(
        descriptor_tools::get_desc_id(&d),
        descriptor_tools::create_desc_id("p", "n", "l", "d")
    );
}

#[test]
fn index_lines_join_value_and_id() {
    let d = Descriptor {
        point: "p".to_string(),
        desc_id: String::new(),
        name: "n".to_string(),
        label: "l".to_string(),
        description: "d".to_string(),
    };
    let id = descriptor_tools::get_desc_id(&d);
    assert_eq!(
        descriptor_tools::create_desc_point_index_line(&d),
        format!("p {}", id)
    );
    assert_eq!(
        descriptor_tools::create_desc_name_index_line(&d),
        format!("n {}", id)
    );
    assert_eq!(
        descriptor_tools::create_desc_label_index_line(&d),
        format!("l {}", id)
    );
    assert_eq!(
        descriptor_tools::create_desc_description_index_line(&d),
        format!("d {}", id)
    );
    assert_eq!(
        descriptor_tools::build_index_line(" spaced value ", "someid"),
        "spaced value someid"
    );
}

#[test]
fn app_value_resolution() {
    assert_eq!(App::Definite("x".to_string()).get_value(), Some("x".to_string()));
    assert_eq!(App::Definite(String::new()).get_value(), None);
    assert_eq!(App::Maybe(Some("y".to_string())).get_value(), Some("y".to_string()));
    assert_eq!(App::Maybe(None).get_value(), None);
    assert!(App::Maybe(None).is_none());
    assert!(App::Definite("x".to_string()).is_some());
    assert_eq!(App::from("z".to_string()).to_text(), "z");
    assert_eq!(App::Maybe(None).to_text(), "");
}

#[test]
fn space_value_resolution() {
    assert_eq!(Space::Definite("s".to_string()).get_value(), Some("s".to_string()));
    assert_eq!(Space::Definite(String::new()).get_value(), None);
    assert_eq!(Space::Maybe(Some("t".to_string())).get_value(), Some("t".to_string()));
    assert_eq!(Space::Maybe(None).get_value(), None);
    assert!(Space::Definite(String::new()).is_none());
    assert!(Space::from(Some("t".to_string())).is_some());
    assert_eq!(Space::from("u".to_string()).to_text(), "u");
}

#[test]
fn canonicalize_trims_and_strips_line_breaks() {
    assert_eq!(infospace::canonicalize(" a \n b \r\n"), "a  b");
    assert_eq!(infospace::canonicalize(""), "");
    assert_eq!(infospace::canonicalize(" \n\t "), "");
    assert_eq!(infospace::trim("\t x y \n"), "x y");
}
