use phunk::json::{parse_json, Json};
use phunk::resolve::{
    detail_url, extract_download_id, link_url, listing_url, resolve_detail_body, resolve_link_body,
};

#[test]
fn detail_document_direct_id() {
    // The walk of the detail document: pageProps.post.downloads[0], then the
    // node's own id when it has no links array.
    let body = r#"{"pageProps":{"post":{"downloads":[{"id":"42"}]}}}"#;
    assert_eq!(resolve_detail_body(body), "42");
}

#[test]
fn detail_document_numeric_id() {
    let body = r#"{"pageProps":{"post":{"downloads":[{"id":42}]}}}"#;
    assert_eq!(resolve_detail_body(body), "42");
}

#[test]
fn detail_document_links_id_wins() {
    let body = r#"{"pageProps":{"post":{"downloads":[{"links":[{"id":"7"}],"id":"9"}]}}}"#;
    assert_eq!(resolve_detail_body(body), "7");
}

#[test]
fn detail_document_empty_links_array_yields_empty() {
    // A links member that holds no first element yields an empty identifier;
    // the direct id is not consulted once links is present.
    let body = r#"{"pageProps":{"post":{"downloads":[{"links":[],"id":"9"}]}}}"#;
    assert_eq!(resolve_detail_body(body), "");
}

#[test]
fn links_member_that_is_no_array_shadows_the_direct_id() {
    // Once a links member exists the direct id is not consulted, whatever
    // shape links has.
    let body = r#"{"pageProps":{"post":{"downloads":[{"links":"nope","id":"9"}]}}}"#;
    assert_eq!(resolve_detail_body(body), "");
}

#[test]
fn detail_document_nothing_found_is_empty_not_error() {
    assert_eq!(resolve_detail_body(r#"{"pageProps":{"post":{}}}"#), "");
    assert_eq!(resolve_detail_body(r#"{}"#), "");
    assert_eq!(
        resolve_detail_body(r#"{"pageProps":{"post":{"downloads":[{}]}}}"#),
        ""
    );
}

#[test]
fn malformed_detail_body_degrades_to_empty() {
    assert_eq!(resolve_detail_body("not json at all"), "");
    assert_eq!(resolve_detail_body(""), "");
}

#[test]
fn link_document_yields_url() {
    let body = r#"{"url":"https://cdn/x.zip"}"#;
    assert_eq!(resolve_link_body(body), "https://cdn/x.zip");
}

#[test]
fn link_document_without_url_is_empty() {
    assert_eq!(resolve_link_body(r#"{"other":1}"#), "");
    assert_eq!(resolve_link_body("broken"), "");
}

#[test]
fn extraction_works_on_hand_built_documents() {
    let doc = Json::Obj(vec![(
        "pageProps".to_string(),
        Json::Obj(vec![(
            "post".to_string(),
            Json::Obj(vec![(
                "downloads".to_string(),
                Json::Arr(vec![Json::Obj(vec![(
                    "id".to_string(),
                    Json::Text("42".to_string()),
                )])]),
            )]),
        )]),
    )]);
    assert_eq!(extract_download_id(&doc), "42");
}

#[test]
fn parse_json_reads_real_documents() {
    // Through the trusted parse: a scalar member read back out.
    let doc = parse_json(r#"{"url":"https://cdn/y.dmg"}"#).expect("a JSON document");
    let url = doc.get("url").expect("a url member");
    assert_eq!(url.scalar_text(), "https://cdn/y.dmg");
    assert!(parse_json("{{nope").is_none());
}

#[test]
fn endpoint_addresses() {
    assert_eq!(
        detail_url("appA"),
        "https://filecr.com/_next/data/QY65jIg1vE9Ef3Z159Z-z/macos/appA.json?categorySlug=macos"
    );
    assert_eq!(
        link_url("42"),
        "https://filecr.com/api/actions/downloadlink/?id=42"
    );
    assert_eq!(listing_url("1"), "https://filecr.com/macos/?page=1");
}
