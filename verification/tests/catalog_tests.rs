use phunk::catalog::{parse_listing, ParseError};
use phunk::dom::Element;

fn el(tag: &str, classes: &[&str], href: Option<&str>, children: Vec<Element>) -> Element {
    Element {
        tag: tag.to_string(),
        classes: classes.iter().map(|c| c.to_string()).collect(),
        href: href.map(|h| h.to_string()),
        children,
    }
}

/// One listing row: a block whose second nested div holds the product anchor.
fn product_block(href: &str) -> Element {
    el(
        "div",
        &[],
        None,
        vec![
            el("div", &["thumb"], None, vec![]),
            el(
                "div",
                &["meta"],
                None,
                vec![el("a", &[], Some(href), vec![])],
            ),
        ],
    )
}

fn listing(blocks: Vec<Element>) -> Element {
    el(
        "html",
        &[],
        None,
        vec![el(
            "section",
            &["products"],
            None,
            vec![el("div", &["product-list"], None, blocks)],
        )],
    )
}

#[test]
fn two_blocks_one_root_link_yield_one_entry() {
    // A listing with one product block and one root-link block: exactly one
    // entry, named by the slug.
    let doc = listing(vec![product_block("/macos/appA"), product_block("/macos/")]);
    let entries = parse_listing(&doc).expect("a well-formed listing");
    assert_eq!(entries.len(), 1);
    assert_eq!(entries[0].name, "appA");
    assert_eq!(entries[0].description, "/macos/appA");
    assert_eq!(entries[0].source_url, "/macos/appA");
    assert_eq!(entries[0].download_link, "appA");
}

#[test]
fn order_is_document_order() {
    let doc = listing(vec![
        product_block("/macos/first"),
        product_block("/macos/"),
        product_block("/macos/second"),
        product_block("/macos/third"),
    ]);
    let entries = parse_listing(&doc).expect("a well-formed listing");
    let names: Vec<&str> = entries.iter().map(|e| e.name.as_str()).collect();
    assert_eq!(names, vec!["first", "second", "third"]);
}

#[test]
fn block_without_anchor_is_skipped() {
    let bare = el("div", &[], None, vec![el("div", &[], None, vec![])]);
    let doc = listing(vec![bare, product_block("/macos/appB")]);
    let entries = parse_listing(&doc).expect("a well-formed listing");
    assert_eq!(entries.len(), 1);
    assert_eq!(entries[0].name, "appB");
}

#[test]
fn second_nested_block_counts_in_document_order() {
    // Nested blocks are counted in document order: a block nested in the
    // first one is the second, and its anchor is the one read.
    let block = el(
        "div",
        &[],
        None,
        vec![
            el(
                "div",
                &["outer"],
                None,
                vec![el(
                    "div",
                    &["inner"],
                    None,
                    vec![el("a", &[], Some("/macos/nested"), vec![])],
                )],
            ),
            el(
                "div",
                &["meta"],
                None,
                vec![el("a", &[], Some("/macos/ignored"), vec![])],
            ),
        ],
    );
    let doc = listing(vec![block]);
    let entries = parse_listing(&doc).expect("a well-formed listing");
    assert_eq!(entries.len(), 1);
    assert_eq!(entries[0].name, "nested");
}

#[test]
fn missing_products_section_fails() {
    let doc = el("html", &[], None, vec![]);
    assert_eq!(
        parse_listing(&doc).unwrap_err(),
        ParseError::MissingProductsSection
    );
}

#[test]
fn missing_product_list_fails() {
    let doc = el(
        "html",
        &[],
        None,
        vec![el("section", &["products"], None, vec![])],
    );
    assert_eq!(
        parse_listing(&doc).unwrap_err(),
        ParseError::MissingProductList
    );
}

#[test]
fn anchor_without_href_is_fatal() {
    let block = el(
        "div",
        &[],
        None,
        vec![
            el("div", &[], None, vec![]),
            el("div", &[], None, vec![el("a", &[], None, vec![])]),
        ],
    );
    let doc = listing(vec![product_block("/macos/appC"), block]);
    assert_eq!(
        parse_listing(&doc).unwrap_err(),
        ParseError::MissingLinkAttribute
    );
}

#[test]
fn anchor_found_anywhere_inside_second_block() {
    // The anchor is the first one among the second block's descendants, not
    // only its direct children.
    let block = el(
        "div",
        &[],
        None,
        vec![
            el("div", &[], None, vec![]),
            el(
                "div",
                &[],
                None,
                vec![el(
                    "span",
                    &[],
                    None,
                    vec![el("a", &[], Some("/macos/deep"), vec![])],
                )],
            ),
        ],
    );
    let doc = listing(vec![block]);
    let entries = parse_listing(&doc).expect("a well-formed listing");
    assert_eq!(entries.len(), 1);
    assert_eq!(entries[0].name, "deep");
}
