use crate::catalog::CatalogEntry;
use vstd::prelude::*;

verus! {

/// One entry's single mutation: the resolver's output takes the place of
/// the slug in `download_link`; every other field is kept.
pub fn resolve_entry(e: &CatalogEntry, resolved: String) -> (r: CatalogEntry)
    ensures
        r@.name == e@.name,
        r@.description == e@.description,
        r@.source_url == e@.source_url,
        r@.download_link == resolved@,
{
    CatalogEntry {
        name: e.name.clone(),
        description: e.description.clone(),
        source_url: e.source_url.clone(),
        download_link: resolved,
    }
}

/// The resolution stage's accumulation: entry by entry, in the parser's
/// order, each entry's `download_link` replaced by the URL resolved for it —
/// the output order equals the input order, and nothing else changes.
#[verifier::loop_isolation(false)]
pub fn apply_resolutions(entries: &Vec<CatalogEntry>, urls: &Vec<String>) -> (r: Vec<CatalogEntry>)
    requires
        entries@.len() == urls@.len(),
    ensures
        r@.len() == entries@.len(),
        forall|i: int|
            0 <= i < r@.len() ==> (#[trigger] r@[i])@.name == entries@[i]@.name && r@[i]@.description
                == entries@[i]@.description && r@[i]@.source_url == entries@[i]@.source_url
                && r@[i]@.download_link == urls@[i]@,
{
    let mut out: Vec<CatalogEntry> = Vec::new();
    let mut i: usize = 0;
    while i < entries.len()
        invariant
            0 <= i <= entries@.len(),
            out@.len() == i,
            forall|k: int|
                0 <= k < i ==> (#[trigger] out@[k])@.name == entries@[k]@.name
                    && out@[k]@.description == entries@[k]@.description && out@[k]@.source_url
                    == entries@[k]@.source_url && out@[k]@.download_link == urls@[k]@,
        decreases entries@.len() - i,
    {
        let resolved = urls[i].clone();
        out.push(resolve_entry(&entries[i], resolved));
        i = i + 1;
    }
    out
}

} // verus!
