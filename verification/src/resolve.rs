use crate::json::{spec_at, spec_get, spec_scalar_text, json_parse, parse_json, Json};
use vstd::prelude::*;

verus! {

/// The first entry of the detail document's `pageProps.post.downloads`
/// array, when every step of that walk is present.
pub open spec fn spec_downloads_head(doc: Json) -> Option<Json> {
    match spec_get(doc, "pageProps"@) {
        None => None,
        Some(pp) => match spec_get(pp, "post"@) {
            None => None,
            Some(post) => match spec_get(post, "downloads"@) {
                None => None,
                Some(ds) => spec_at(ds, 0),
            },
        },
    }
}

/// The download-request identifier a detail document yields: from
/// `downloads[0].links[0].id` when the node has a `links` member, from the
/// node's own `id` otherwise; empty wherever the walk finds nothing.
pub open spec fn spec_download_id(doc: Json) -> Seq<char> {
    match spec_downloads_head(doc) {
        None => Seq::empty(),
        Some(d) => match spec_get(d, "links"@) {
            Some(links) => match spec_at(links, 0) {
                Some(l0) => match spec_get(l0, "id"@) {
                    Some(id) => spec_scalar_text(id),
                    None => Seq::empty(),
                },
                None => Seq::empty(),
            },
            None => match spec_get(d, "id"@) {
                Some(id) => spec_scalar_text(id),
                None => Seq::empty(),
            },
        },
    }
}

/// The direct-download URL a download-link document yields: its `url`
/// member's text, empty when absent.
pub open spec fn spec_link_url(doc: Json) -> Seq<char> {
    match spec_get(doc, "url"@) {
        Some(u) => spec_scalar_text(u),
        None => Seq::empty(),
    }
}

/// The identifier extracted from a parsed detail document, per
/// `spec_download_id`.
pub fn extract_download_id(doc: &Json) -> (r: String)
    ensures
        r@ == spec_download_id(*doc),
{
    let head = match doc.get("pageProps") {
        Some(pp) => match pp.get("post") {
            Some(post) => match post.get("downloads") {
                Some(ds) => ds.at(0),
                None => None,
            },
            None => None,
        },
        None => None,
    };
    match head {
        None => String::new(),
        Some(d) => match d.get("links") {
            Some(links) => match links.at(0) {
                Some(l0) => match l0.get("id") {
                    Some(id) => id.scalar_text(),
                    None => String::new(),
                },
                None => String::new(),
            },
            None => match d.get("id") {
                Some(id) => id.scalar_text(),
                None => String::new(),
            },
        },
    }
}

/// The URL extracted from a parsed download-link document, per
/// `spec_link_url`.
pub fn extract_link_url(doc: &Json) -> (r: String)
    ensures
        r@ == spec_link_url(*doc),
{
    match doc.get("url") {
        Some(u) => u.scalar_text(),
        None => String::new(),
    }
}

/// What the first resolution step yields for a detail response body: the
/// download-request identifier of the parsed document, or empty where the
/// body is not a JSON document — a missing or malformed response degrades to
/// "no download available", it never fails the batch.
pub open spec fn spec_detail_step(body: Seq<char>) -> Seq<char> {
    match json_parse(body) {
        Some(doc) => spec_download_id(doc),
        None => Seq::empty(),
    }
}

/// What the second resolution step yields for a download-link response body.
pub open spec fn spec_link_step(body: Seq<char>) -> Seq<char> {
    match json_parse(body) {
        Some(doc) => spec_link_url(doc),
        None => Seq::empty(),
    }
}

/// First resolution step: the download-request identifier carried by a
/// detail response body, empty where nothing is found.
pub fn resolve_detail_body(body: &str) -> (r: String)
    ensures
        r@ == spec_detail_step(body@),
{
    match parse_json(body) {
        Some(doc) => extract_download_id(&doc),
        None => String::new(),
    }
}

/// Second resolution step: the direct-download URL carried by a
/// download-link response body, empty where nothing is found.
pub fn resolve_link_body(body: &str) -> (r: String)
    ensures
        r@ == spec_link_step(body@),
{
    match parse_json(body) {
        Some(doc) => extract_link_url(&doc),
        None => String::new(),
    }
}

/// The address of the per-item detail document for a slug: the catalog
/// site's data endpoint, keyed by the item's slug.
pub fn detail_url(slug: &str) -> (r: String)
    ensures
        r@ == "https://filecr.com/_next/data/QY65jIg1vE9Ef3Z159Z-z/macos/"@ + slug@
            + ".json?categorySlug=macos"@,
{
    let mut r = String::from_str("https://filecr.com/_next/data/QY65jIg1vE9Ef3Z159Z-z/macos/");
    r.append(slug);
    r.append(".json?categorySlug=macos");
    r
}

/// The address of the download-link endpoint for a download-request
/// identifier.
pub fn link_url(id: &str) -> (r: String)
    ensures
        r@ == "https://filecr.com/api/actions/downloadlink/?id="@ + id@,
{
    let mut r = String::from_str("https://filecr.com/api/actions/downloadlink/?id=");
    r.append(id);
    r
}

/// The address of a listing page of the catalog.
pub fn listing_url(page: &str) -> (r: String)
    ensures
        r@ == "https://filecr.com/macos/?page="@ + page@,
{
    let mut r = String::from_str("https://filecr.com/macos/?page=");
    r.append(page);
    r
}

/// The fallback law of the detail walk: when `downloads[0]` is present but
/// has no `links` member, the identifier comes from the node's own `id`
/// member; when that too is absent, the identifier is empty and no error is
/// raised.
pub proof fn lemma_detail_fallback(doc: Json, d: Json)
    requires
        spec_downloads_head(doc) == Some(d),
        spec_get(d, "links"@) is None,
    ensures
        spec_get(d, "id"@) matches Some(id) ==> spec_download_id(doc) == spec_scalar_text(id),
        spec_get(d, "id"@) is None ==> spec_download_id(doc) == Seq::<char>::empty(),
{
}

} // verus!
