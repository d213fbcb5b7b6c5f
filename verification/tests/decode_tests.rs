use themestore::decode::{decode_catalog, decode_product, parse_catalog, score_from_number_text};
use themestore::error::StoreError;

const PAGE: &str = r#"{
    "status": "ok",
    "statuscode": 100,
    "message": "",
    "totalitems": 1,
    "itemsperpage": 10,
    "data": [{
        "details": "full",
        "id": 5,
        "name": "Foo",
        "typeid": 135,
        "typename": "Gtk Themes",
        "personid": "alice",
        "created": "2024-01-02T03:04:05+00:00",
        "changed": "2024-02-03T04:05:06+00:00",
        "score": 47.0,
        "downloads": "123",
        "description": "<b>Nice</b> theme",
        "previewpic1": "http://x/a.png",
        "previewpic3": "http://x/c.png",
        "downloadlink1": "http://x/a.tar",
        "downloadname1": "A",
        "downloadsize1": "1024"
    }]
}"#;

#[test]
fn parse_catalog_end_to_end() {
    let page = parse_catalog(PAGE).unwrap();
    assert_eq!(page.status, "ok");
    assert_eq!(page.statuscode, 100);
    assert_eq!(page.message, "");
    assert_eq!(page.totalitems, 1);
    assert_eq!(page.itemsperpage, 10);
    assert_eq!(page.data.len(), 1);
    let p = &page.data[0];
    assert_eq!(p.details, "full");
    assert_eq!(p.id, 5);
    assert_eq!(p.name, "Foo");
    assert_eq!(p.typeid, 135);
    assert_eq!(p.typename, "Gtk Themes");
    assert_eq!(p.personid, "alice");
    assert_eq!(p.score_tenths, 47);
    assert_eq!(p.downloads, "123");
    assert_eq!(p.description, "Nice theme");
    assert_eq!(p.previewpics, vec!["http://x/a.png", "http://x/c.png"]);
    assert_eq!(p.downloaddetails.len(), 1);
    assert_eq!(p.downloaddetails[0].downloadlink, "http://x/a.tar");
    assert_eq!(p.downloaddetails[0].downloadname, "A");
    assert_eq!(p.downloaddetails[0].downloadsize, 1024);
}

#[test]
fn parse_catalog_rejects_invalid_json() {
    match parse_catalog("{ not json") {
        Err(StoreError::Decode(_)) => {}
        other => panic!("expected a decode error, got {:?}", other),
    }
}

#[test]
fn parse_catalog_rejects_missing_top_field() {
    match parse_catalog(r#"{"status": "ok"}"#) {
        Err(StoreError::Decode(_)) => {}
        other => panic!("expected a decode error, got {:?}", other),
    }
}

#[test]
fn decode_product_rejects_missing_fixed_field() {
    let v: serde_json::Value = serde_json::from_str(r#"{"id": 1}"#).unwrap();
    match decode_product(&v) {
        Err(StoreError::Decode(_)) => {}
        other => panic!("expected a decode error, got {:?}", other),
    }
}

#[test]
fn decode_catalog_fails_whole_page_on_one_bad_record() {
    let body = r#"{
        "status": "ok", "statuscode": 100, "message": "",
        "totalitems": 1, "itemsperpage": 10,
        "data": [{"id": 1}]
    }"#;
    let v: serde_json::Value = serde_json::from_str(body).unwrap();
    match decode_catalog(&v) {
        Err(StoreError::Decode(_)) => {}
        other => panic!("expected a decode error, got {:?}", other),
    }
}

#[test]
fn integer_scores_read_directly() {
    let body = PAGE.replace("47.0", "32");
    let page = parse_catalog(&body).unwrap();
    assert_eq!(page.data[0].score_tenths, 32);
}

#[test]
fn score_text_takes_leading_digits() {
    assert_eq!(score_from_number_text("47.0"), 47);
    assert_eq!(score_from_number_text("32"), 32);
    assert_eq!(score_from_number_text("-4.5"), 0);
    assert_eq!(score_from_number_text("1e30"), 1);
    assert_eq!(score_from_number_text(""), 0);
    assert_eq!(score_from_number_text("99999999999999999999"), u64::MAX);
}
