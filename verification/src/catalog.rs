use crate::dom::{spec_find, spec_nth_in_seq, find_first, nth_tagged, Element};
use crate::text::{slug_of, spec_slug};
use vstd::prelude::*;

verus! {

/// One discoverable item of the catalog. `download_link` holds the item's
/// slug until resolution replaces it with the direct-download URL.
#[derive(Debug)]
pub struct CatalogEntry {
    pub name: String,
    pub description: String,
    pub source_url: String,
    pub download_link: String,
}

/// The mathematical image of a `CatalogEntry`: its four texts.
pub struct CatalogEntryView {
    pub name: Seq<char>,
    pub description: Seq<char>,
    pub source_url: Seq<char>,
    pub download_link: Seq<char>,
}

impl View for CatalogEntry {
    type V = CatalogEntryView;

    open spec fn view(&self) -> CatalogEntryView {
        CatalogEntryView {
            name: self.name@,
            description: self.description@,
            source_url: self.source_url@,
            download_link: self.download_link@,
        }
    }
}

/// A structural failure of the listing parse: a mandatory container or the
/// matched anchor's link attribute is absent.
#[derive(PartialEq, Eq, Structural, Clone, Copy, Debug)]
pub enum ParseError {
    MissingProductsSection,
    MissingProductList,
    MissingLinkAttribute,
}

/// What one child block of the product list contributes to the parse.
pub enum BlockOutcome {
    /// No anchor reachable, a root link, or an empty name: no entry.
    Skip,
    /// A product block: exactly this entry.
    Product(CatalogEntryView),
    /// An anchor without a link attribute: the whole parse fails.
    Malformed,
}

/// The anchor a block is read through: the first anchor inside the block's
/// second nested block, when both exist.
pub open spec fn spec_block_anchor(b: Element) -> Option<Element> {
    match spec_nth_in_seq(b.children@, "div"@, 1) {
        Err(_) => None,
        Ok(second) => match spec_nth_in_seq(second.children@, "a"@, 0) {
            Err(_) => None,
            Ok(anchor) => Some(anchor),
        },
    }
}

/// What a child block contributes: the entry derived from its anchor's link
/// attribute, a skip for browse-all links and empty names, or a malformed
/// mark where the anchor has no link attribute.
pub open spec fn spec_block_outcome(b: Element) -> BlockOutcome {
    match spec_block_anchor(b) {
        None => BlockOutcome::Skip,
        Some(anchor) => match anchor.href {
            None => BlockOutcome::Malformed,
            Some(h) => if h@ == "/macos/"@ {
                BlockOutcome::Skip
            } else if spec_slug(h@).len() == 0 {
                BlockOutcome::Skip
            } else {
                BlockOutcome::Product(
                    CatalogEntryView {
                        name: spec_slug(h@),
                        description: h@,
                        source_url: h@,
                        download_link: spec_slug(h@),
                    },
                )
            },
        },
    }
}

/// Whether some block of the forest is malformed.
pub open spec fn spec_has_malformed(s: Seq<Element>) -> bool {
    exists|i: int| 0 <= i < s.len() && (#[trigger] spec_block_outcome(s[i])) is Malformed
}

/// The entries the blocks of the forest yield, in document order.
pub open spec fn spec_entries(s: Seq<Element>) -> Seq<CatalogEntryView>
    decreases s.len(),
{
    if s.len() == 0 {
        Seq::empty()
    } else {
        let init = spec_entries(s.drop_last());
        match spec_block_outcome(s.last()) {
            BlockOutcome::Product(e) => init.push(e),
            _ => init,
        }
    }
}

/// What the listing parse yields on a document: the entries of the product
/// list's child blocks in document order, or the structural failure that
/// stops it.
pub open spec fn spec_parse_listing(root: Element) -> Result<Seq<CatalogEntryView>, ParseError> {
    match spec_find(root, "section"@, "products"@) {
        None => Err(ParseError::MissingProductsSection),
        Some(sec) => match spec_find(sec, "div"@, "product-list"@) {
            None => Err(ParseError::MissingProductList),
            Some(cont) => if spec_has_malformed(cont.children@) {
                Err(ParseError::MissingLinkAttribute)
            } else {
                Ok(spec_entries(cont.children@))
            },
        },
    }
}

/// What one block contributed, as executable data.
enum BlockResult {
    Skip,
    Product(CatalogEntry),
    Malformed,
}

/// One child block read through its anchor, per `spec_block_outcome`.
fn block_entry(b: &Element) -> (r: BlockResult)
    ensures
        r is Skip <==> spec_block_outcome(*b) is Skip,
        r is Malformed <==> spec_block_outcome(*b) is Malformed,
        r matches BlockResult::Product(e) ==> BlockOutcome::Product(e@) == spec_block_outcome(*b),
{
    let second = match nth_tagged(b, "div", 1) {
        Some(s) => s,
        None => {
            return BlockResult::Skip;
        },
    };
    let anchor = match nth_tagged(second, "a", 0) {
        Some(a) => a,
        None => {
            return BlockResult::Skip;
        },
    };
    let h = match &anchor.href {
        Some(h) => h,
        None => {
            return BlockResult::Malformed;
        },
    };
    let root_path = String::from_str("/macos/");
    if *h == root_path {
        return BlockResult::Skip;
    }
    let slug = slug_of(h.as_str());
    if slug.as_str().is_empty() {
        return BlockResult::Skip;
    }
    let slug_again = slug.clone();
    BlockResult::Product(
        CatalogEntry {
            name: slug,
            description: h.clone(),
            source_url: h.clone(),
            download_link: slug_again,
        },
    )
}

/// The Catalog Parser: the product list's child blocks read in document
/// order, yielding one entry per product block, or the structural failure
/// the document has, per `spec_parse_listing`.
#[verifier::loop_isolation(false)]
pub fn parse_listing(root: &Element) -> (r: Result<Vec<CatalogEntry>, ParseError>)
    ensures
        r is Ok <==> spec_parse_listing(*root) is Ok,
        r matches Ok(es) ==> Ok::<Seq<CatalogEntryView>, ParseError>(
            es@.map_values(|e: CatalogEntry| e@),
        ) == spec_parse_listing(*root),
        r matches Err(pe) ==> Err::<Seq<CatalogEntryView>, ParseError>(pe) == spec_parse_listing(
            *root,
        ),
{
    let sec = match find_first(root, "section", "products") {
        Some(s) => s,
        None => {
            return Err(ParseError::MissingProductsSection);
        },
    };
    let cont = match find_first(sec, "div", "product-list") {
        Some(c) => c,
        None => {
            return Err(ParseError::MissingProductList);
        },
    };
    let mut out: Vec<CatalogEntry> = Vec::new();
    let mut i: usize = 0;
    proof {
        assert(cont.children@.subrange(0, 0) =~= Seq::<Element>::empty());
        assert(out@.map_values(|e: CatalogEntry| e@) =~= spec_entries(
            cont.children@.subrange(0, 0),
        ));
    }
    while i < cont.children.len()
        invariant
            0 <= i <= cont.children@.len(),
            forall|k: int| 0 <= k < i ==> !((#[trigger] spec_block_outcome(cont.children@[k]))
                is Malformed),
            out@.map_values(|e: CatalogEntry| e@) == spec_entries(
                cont.children@.subrange(0, i as int),
            ),
        decreases cont.children@.len() - i,
    {
        let ghost pre = cont.children@.subrange(0, i as int);
        let ghost post = cont.children@.subrange(0, i + 1);
        proof {
            assert(post.drop_last() =~= pre);
            assert(post.last() == cont.children@[i as int]);
        }
        match block_entry(&cont.children[i]) {
            BlockResult::Malformed => {
                proof {
                    assert((spec_block_outcome(cont.children@[i as int])) is Malformed);
                }
                return Err(ParseError::MissingLinkAttribute);
            },
            BlockResult::Product(e) => {
                out.push(e);
                proof {
                    assert(out@.map_values(|e: CatalogEntry| e@) =~= spec_entries(post));
                }
            },
            BlockResult::Skip => {
                proof {
                    assert(out@.map_values(|e: CatalogEntry| e@) =~= spec_entries(post));
                }
            },
        }
        i = i + 1;
    }
    proof {
        assert(cont.children@.subrange(0, cont.children@.len() as int) =~= cont.children@);
    }
    Ok(out)
}

/// The product blocks of a forest: those child blocks that yield an entry.
pub open spec fn spec_product_blocks(s: Seq<Element>) -> Seq<Element> {
    s.filter(|b: Element| spec_block_outcome(b) is Product)
}

/// The parser law: the blocks of a listing yield exactly one entry per
/// product block, in document order — the entry that block's anchor gives —
/// and no entry for any other block.
pub proof fn lemma_entries_are_product_blocks(s: Seq<Element>)
    ensures
        spec_entries(s).len() == spec_product_blocks(s).len(),
        forall|i: int|
            0 <= i < spec_entries(s).len() ==> spec_block_outcome(
                #[trigger] spec_product_blocks(s)[i],
            ) == BlockOutcome::Product(spec_entries(s)[i]),
    decreases s.len(),
{
    reveal(Seq::filter);
    let pred = |b: Element| spec_block_outcome(b) is Product;
    if s.len() == 0 {
        assert(spec_product_blocks(s).len() == 0);
    } else {
        lemma_entries_are_product_blocks(s.drop_last());
        let pb = spec_product_blocks(s);
        let pbl = spec_product_blocks(s.drop_last());
        let ents = spec_entries(s);
        let entl = spec_entries(s.drop_last());
        assert(pb == if pred(s.last()) {
            pbl.push(s.last())
        } else {
            pbl
        });
        assert forall|i: int| 0 <= i < ents.len() implies spec_block_outcome(
            #[trigger] pb[i],
        ) == BlockOutcome::Product(ents[i]) by {
            if i < entl.len() {
                assert(pb[i] == pbl[i]);
                assert(ents[i] == entl[i]);
            } else {
                assert(pred(s.last()));
                assert(pb[i] == s.last());
            }
        }
    }
}

/// The entry invariant: an entry a block yields has its name derived from
/// its source URL as that URL's slug, the name is never empty, the
/// description repeats the source URL, and the unresolved link is the name.
pub proof fn lemma_block_entry_well_formed(b: Element)
    requires
        spec_block_outcome(b) is Product,
    ensures
        ({
            let e = spec_block_outcome(b)->Product_0;
            e.name == spec_slug(e.source_url) && e.name.len() > 0 && e.download_link == e.name
                && e.description == e.source_url
        }),
{
}

/// The entry invariant over a whole parse: every entry the blocks of a
/// listing yield is well formed, per `lemma_block_entry_well_formed`.
pub proof fn lemma_parsed_entries_well_formed(s: Seq<Element>)
    ensures
        forall|i: int|
            0 <= i < spec_entries(s).len() ==> {
                let e = #[trigger] spec_entries(s)[i];
                e.name == spec_slug(e.source_url) && e.name.len() > 0 && e.download_link == e.name
                    && e.description == e.source_url
            },
{
    lemma_entries_are_product_blocks(s);
    assert forall|i: int| 0 <= i < spec_entries(s).len() implies {
        let e = #[trigger] spec_entries(s)[i];
        e.name == spec_slug(e.source_url) && e.name.len() > 0 && e.download_link == e.name
            && e.description == e.source_url
    } by {
        lemma_block_entry_well_formed(spec_product_blocks(s)[i]);
    }
}

/// Whether a block is a "browse all" root link: its anchor's link attribute
/// is the catalog's own root path.
pub open spec fn spec_is_root_link(b: Element) -> bool {
    spec_block_anchor(b) matches Some(anchor) && anchor.href matches Some(h) && h@ == "/macos/"@
}

/// A root-link block never yields an entry.
pub proof fn lemma_root_link_yields_no_entry(b: Element)
    requires
        spec_is_root_link(b),
    ensures
        !(spec_block_outcome(b) is Product),
{
}

} // verus!
