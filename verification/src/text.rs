use vstd::prelude::*;

verus! {

/// The path prefix of the catalog's item pages.
pub open spec fn catalog_prefix() -> Seq<char> {
    "/macos/"@
}

/// `s` with the prefix `p` removed, when it starts with `p`; `s` itself
/// otherwise.
pub open spec fn spec_without_prefix(s: Seq<char>, p: Seq<char>) -> Seq<char> {
    if p.len() <= s.len() && s.subrange(0, p.len() as int) == p {
        s.skip(p.len() as int)
    } else {
        s
    }
}

/// `s` with every occurrence of the character `bad` removed.
pub open spec fn spec_without_char(s: Seq<char>, bad: char) -> Seq<char> {
    s.filter(|c: char| c != bad)
}

/// The slug of an item's relative URL: the catalog path prefix removed,
/// then every remaining `/`.
pub open spec fn spec_slug(href: Seq<char>) -> Seq<char> {
    spec_without_char(spec_without_prefix(href, catalog_prefix()), '/')
}

/// Characters collected into a `String`.
/// Relies on `core::iter::Iterator::collect` building a `String` from a
/// `char` iterator: the result holds exactly the characters of `v`, in order.
#[verifier::external_body]
fn string_from_chars(v: &Vec<char>) -> (r: String)
    ensures
        r@ == v@,
{
    v.iter().collect()
}

/// The characters of `s` from position `start` on, with every occurrence of
/// `bad` dropped.
fn filter_out(s: &str, start: usize, bad: char) -> (r: Vec<char>)
    requires
        start <= s@.len(),
    ensures
        r@ == spec_without_char(s@.skip(start as int), bad),
{
    let len = s.unicode_len();
    let mut r: Vec<char> = Vec::new();
    let mut i: usize = start;
    proof {
        reveal(Seq::filter);
        assert(s@.subrange(start as int, start as int) =~= Seq::<char>::empty());
        assert(r@ =~= spec_without_char(s@.subrange(start as int, start as int), bad));
    }
    while i < len
        invariant
            start <= i <= len,
            len == s@.len(),
            r@ == spec_without_char(s@.subrange(start as int, i as int), bad),
        decreases len - i,
    {
        let c = s.get_char(i);
        if c != bad {
            r.push(c);
        }
        proof {
            reveal(Seq::filter);
            let pre = s@.subrange(start as int, i as int);
            let post = s@.subrange(start as int, i + 1);
            assert(post.drop_last() =~= pre);
            assert(post.last() == s@[i as int]);
        }
        i = i + 1;
    }
    proof {
        assert(s@.subrange(start as int, len as int) =~= s@.skip(start as int));
    }
    r
}

/// Whether a relative URL starts with the catalog path prefix.
pub open spec fn has_catalog_prefix_spec(s: Seq<char>) -> bool {
    catalog_prefix().len() <= s.len() && s.subrange(0, catalog_prefix().len() as int)
        == catalog_prefix()
}

/// Whether `s` starts with the catalog path prefix `/macos/`.
fn has_catalog_prefix(s: &str) -> (r: bool)
    ensures
        r == has_catalog_prefix_spec(s@),
{
    proof {
        reveal_strlit("/macos/");
    }
    let len = s.unicode_len();
    if len < 7 {
        return false;
    }
    let mut i: usize = 0;
    let p = "/macos/";
    while i < 7
        invariant
            0 <= i <= 7,
            7 <= s@.len(),
            p@ == catalog_prefix(),
            p@.len() == 7,
            forall|k: int| 0 <= k < i ==> s@[k] == p@[k],
        decreases 7 - i,
    {
        if s.get_char(i) != p.get_char(i) {
            proof {
                assert(s@.subrange(0, 7)[i as int] != catalog_prefix()[i as int]);
            }
            return false;
        }
        i = i + 1;
    }
    proof {
        assert(s@.subrange(0, 7) =~= catalog_prefix());
    }
    true
}

/// The slug that stands for an item until its download URL is resolved:
/// the `/macos/` prefix stripped from the item's relative URL, then every
/// remaining `/` removed.
pub fn slug_of(href: &str) -> (r: String)
    ensures
        r@ == spec_slug(href@),
{
    let start: usize = if has_catalog_prefix(href) {
        7
    } else {
        0
    };
    proof {
        reveal_strlit("/macos/");
        if has_catalog_prefix_spec(href@) {
            assert(href@.skip(7) =~= spec_without_prefix(href@, catalog_prefix()));
        } else {
            assert(href@.skip(0) =~= spec_without_prefix(href@, catalog_prefix()));
        }
    }
    let chars = filter_out(href, start, '/');
    string_from_chars(&chars)
}

/// The characters after the last `/` of `s`: the final path segment, empty
/// when the path ends in `/`.
pub open spec fn spec_last_segment(s: Seq<char>) -> Seq<char>
    decreases s.len(),
{
    if s.len() == 0 {
        s
    } else if s.last() == '/' {
        Seq::empty()
    } else {
        spec_last_segment(s.drop_last()).push(s.last())
    }
}

/// The destination file name a resolved URL path gives: its final path
/// segment, or the fixed fallback name where that segment is empty.
pub open spec fn spec_file_name(path: Seq<char>) -> Seq<char> {
    if spec_last_segment(path).len() == 0 {
        "phunk.zip"@
    } else {
        spec_last_segment(path)
    }
}

/// A position `j` with no `/` at or after it, and a `/` (or the start) just
/// before it, cuts the final path segment.
proof fn lemma_last_segment(s: Seq<char>, j: int)
    requires
        0 <= j <= s.len(),
        forall|t: int| j <= t < s.len() ==> s[t] != '/',
        j == 0 || s[j - 1] == '/',
    ensures
        spec_last_segment(s) == s.skip(j),
    decreases s.len(),
{
    if s.len() == 0 {
        assert(s.skip(0) =~= s);
    } else if s.last() == '/' {
        assert(j == s.len());
        assert(s.skip(j) =~= Seq::<char>::empty());
    } else {
        assert(j < s.len());
        lemma_last_segment(s.drop_last(), j);
        assert(s.drop_last().skip(j).push(s.last()) =~= s.skip(j));
    }
}

/// The destination file name derived from a resolved URL path, per
/// `spec_file_name`: the final path segment, with the fixed fallback where
/// it is empty.
#[verifier::loop_isolation(false)]
pub fn file_name_for(path: &str) -> (r: String)
    ensures
        r@ == spec_file_name(path@),
{
    let len = path.unicode_len();
    let mut cut: usize = 0;
    let mut idx: usize = 0;
    while idx < len
        invariant
            0 <= cut <= idx <= len,
            cut == 0 || path@[cut - 1] == '/',
            forall|t: int| cut <= t < idx ==> path@[t] != '/',
        decreases len - idx,
    {
        if path.get_char(idx) == '/' {
            cut = idx + 1;
        }
        idx = idx + 1;
    }
    proof {
        lemma_last_segment(path@, cut as int);
    }
    if cut == len {
        String::from_str("phunk.zip")
    } else {
        let seg = path.substring_char(cut, len);
        proof {
            assert(seg@ =~= path@.skip(cut as int));
        }
        String::from_str(seg)
    }
}

/// A URL freed of every quote character; callers may hand a URL in with
/// surrounding quotes, which must not reach the transport.
pub fn strip_quotes(url: &str) -> (r: String)
    ensures
        r@ == spec_without_char(url@, '"'),
{
    let chars = filter_out(url, 0, '"');
    proof {
        assert(url@.skip(0) =~= url@);
    }
    string_from_chars(&chars)
}

} // verus!
