//! The integrity of document links.

use grpc_ebcdic::document_fold::{integrity_errors, DocumentFold};
use grpc_ebcdic::proto::document::v1 as doc;
use grpc_ebcdic::proto::document::v1::base_text_item::Item;

/// A reference.
fn to(reference: &str) -> doc::RefItem {
    doc::RefItem {
        reference: reference.to_string(),
    }
}

/// A group with children and a parent.
fn group(self_ref: &str, children: &[&str], parent: Option<&str>) -> doc::GroupItem {
    doc::GroupItem {
        self_ref: self_ref.to_string(),
        parent: parent.map(to),
        children: children.iter().map(|child| to(child)).collect(),
        content_layer: doc::ContentLayer::Body.number(),
        meta: None,
    }
}

/// A document with nothing in it.
fn empty() -> doc::Document {
    DocumentFold::new("1").take()
}

#[test]
fn an_empty_document_is_sound() {
    let document = empty();
    assert_eq!(integrity_errors(&document), Vec::<String>::new());
    assert_eq!(document.name, "");
    assert_eq!(document.schema_name.as_deref(), Some("docling_document_v2"));
    assert!(document.body.unwrap().meta.is_none());
}

#[test]
fn the_roots_have_to_be_there_under_their_own_names() {
    let mut document = empty();
    document.body = None;
    document.furniture.as_mut().unwrap().self_ref = "#/attic".to_string();
    assert_eq!(
        integrity_errors(&document),
        vec!["#/body is missing", "#/furniture carries self_ref #/attic"]
    );
}

#[test]
fn items_name_themselves_once() {
    let mut document = empty();
    document.groups = vec![
        group("", &["#/nowhere"], Some("#/body")),
        group("#/groups/1", &[], None),
        group("#/groups/1", &[], None),
        group("#/body", &[], None),
    ];
    document.texts = vec![
        doc::BaseTextItem { item: None },
        doc::BaseTextItem {
            item: Some(Item::Title(doc::TitleItem { base: None })),
        },
        doc::BaseTextItem {
            item: Some(Item::Code(doc::CodeItem {
                self_ref: "#/texts/2".to_string(),
                parent: None,
                children: vec![],
            })),
        },
    ];
    assert_eq!(
        integrity_errors(&document),
        vec![
            "item with empty self_ref",
            "duplicate self_ref #/groups/1",
            "duplicate self_ref #/body",
            "text item with unset variant",
            "text item with unset variant",
        ]
    );
}

#[test]
fn unresolved_children_are_reported_in_order_and_once() {
    let mut document = empty();
    document.body = Some(group("#/body", &["#/z", "#/a", "#/z", "#/groups/0"], None));
    document.furniture = Some(group("#/furniture", &["#/m"], None));
    document.groups = vec![group("#/groups/0", &["#/b"], Some("#/body"))];
    assert_eq!(
        integrity_errors(&document),
        vec![
            "child #/a of #/body does not resolve",
            "child #/z of #/body does not resolve",
            "child #/m of #/furniture does not resolve",
            "child #/b of #/groups/0 does not resolve",
        ]
    );
}

#[test]
fn parents_resolve_and_list_their_children() {
    let mut document = empty();
    document.groups = vec![
        group("#/groups/0", &[], Some("#/nowhere")),
        group("#/groups/1", &[], Some("#/groups/0")),
    ];
    document.pictures = vec![doc::PictureItem {
        self_ref: "#/pictures/0".to_string(),
        parent: Some(to("#/body")),
        children: vec![],
    }];
    assert_eq!(
        integrity_errors(&document),
        vec![
            "parent #/nowhere of #/groups/0 does not resolve",
            "parent #/groups/0 does not list #/groups/1 as a child",
            "parent #/body does not list #/pictures/0 as a child",
        ]
    );
}
