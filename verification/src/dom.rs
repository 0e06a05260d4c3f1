use vstd::prelude::*;

verus! {

/// One element of a parsed listing page, holding exactly what the catalog
/// parser reads: its tag, its classes, its link attribute when it is an
/// anchor that has one, and its child elements in document order.
pub struct Element {
    pub tag: String,
    pub classes: Vec<String>,
    pub href: Option<String>,
    pub children: Vec<Element>,
}

/// Whether `e` carries the class `c`.
pub open spec fn spec_has_class(e: Element, c: Seq<char>) -> bool {
    exists|k: int| 0 <= k < e.classes@.len() && e.classes@[k]@ == c
}

/// Whether `e` matches a tag-and-class selector.
pub open spec fn spec_is(e: Element, tag: Seq<char>, class: Seq<char>) -> bool {
    e.tag@ == tag && spec_has_class(e, class)
}

/// The first element matching a tag-and-class selector in the forest `s`,
/// in document order: each root is visited before its subtree, each subtree
/// before the next root.
pub open spec fn spec_first_in_seq(s: Seq<Element>, tag: Seq<char>, class: Seq<char>) -> Option<
    Element,
>
    decreases s,
{
    if s.len() == 0 {
        None
    } else if spec_is(s[0], tag, class) {
        Some(s[0])
    } else {
        match spec_first_in_seq(s[0].children@, tag, class) {
            Some(x) => Some(x),
            None => spec_first_in_seq(s.subrange(1, s.len() as int), tag, class),
        }
    }
}

/// The first element matching a tag-and-class selector in `e`'s subtree,
/// `e` itself included, in document order.
pub open spec fn spec_find(e: Element, tag: Seq<char>, class: Seq<char>) -> Option<Element> {
    if spec_is(e, tag, class) {
        Some(e)
    } else {
        spec_first_in_seq(e.children@, tag, class)
    }
}

/// The `n`-th element (zero-based) with tag `tag` among the descendants of
/// the forest `s`, in document order: `Ok` with the element, or `Err` with
/// how many matches were still wanted past the forest's end.
pub open spec fn spec_nth_in_seq(s: Seq<Element>, tag: Seq<char>, n: int) -> Result<Element, int>
    decreases s,
{
    if s.len() == 0 {
        Err(n)
    } else if s[0].tag@ == tag && n == 0 {
        Ok(s[0])
    } else {
        let n1 = if s[0].tag@ == tag {
            n - 1
        } else {
            n
        };
        match spec_nth_in_seq(s[0].children@, tag, n1) {
            Ok(x) => Ok(x),
            Err(n2) => spec_nth_in_seq(s.subrange(1, s.len() as int), tag, n2),
        }
    }
}

/// Whether `e` carries class `c`, per `spec_has_class`.
#[verifier::loop_isolation(false)]
fn has_class(e: &Element, c: &str) -> (r: bool)
    ensures
        r == spec_has_class(*e, c@),
{
    let cs = String::from_str(c);
    let mut i: usize = 0;
    while i < e.classes.len()
        invariant
            0 <= i <= e.classes@.len(),
            cs@ == c@,
            forall|k: int| 0 <= k < i ==> e.classes@[k]@ != c@,
        decreases e.classes@.len() - i,
    {
        if e.classes[i] == cs {
            return true;
        }
        i = i + 1;
    }
    false
}

/// Whether `e` matches the selector, per `spec_is`.
fn is_sel(e: &Element, tag: &str, class: &str) -> (r: bool)
    ensures
        r == spec_is(*e, tag@, class@),
{
    let t = String::from_str(tag);
    if e.tag == t {
        has_class(e, class)
    } else {
        false
    }
}

/// The first match of the selector in `e`'s subtree, `e` included, per
/// `spec_find`.
#[verifier::loop_isolation(false)]
pub fn find_first<'a>(e: &'a Element, tag: &str, class: &str) -> (r: Option<&'a Element>)
    ensures
        r is Some <==> spec_find(*e, tag@, class@) is Some,
        r matches Some(x) ==> Some(*x) == spec_find(*e, tag@, class@),
    decreases *e,
{
    if is_sel(e, tag, class) {
        return Some(e);
    }
    let mut i: usize = 0;
    proof {
        assert(e.children@.subrange(0, e.children@.len() as int) =~= e.children@);
    }
    while i < e.children.len()
        invariant
            0 <= i <= e.children@.len(),
            spec_first_in_seq(e.children@.subrange(i as int, e.children@.len() as int), tag@, class@)
                == spec_first_in_seq(e.children@, tag@, class@),
        decreases e.children@.len() - i,
    {
        proof {
            let rest = e.children@.subrange(i as int, e.children@.len() as int);
            assert(rest[0] == e.children@[i as int]);
            assert(rest.subrange(1, rest.len() as int) =~= e.children@.subrange(
                i + 1,
                e.children@.len() as int,
            ));
        }
        let found = find_first(&e.children[i], tag, class);
        if let Some(x) = found {
            return Some(x);
        }
        i = i + 1;
    }
    None
}

/// The `n`-th element with tag `tag` among the descendants of `e` (`e`
/// itself excluded), per `spec_nth_in_seq` over `e`'s children.
pub fn nth_tagged<'a>(e: &'a Element, tag: &str, n: usize) -> (r: Option<&'a Element>)
    ensures
        r is Some <==> spec_nth_in_seq(e.children@, tag@, n as int) is Ok,
        r matches Some(x) ==> Ok::<Element, int>(*x) == spec_nth_in_seq(
            e.children@,
            tag@,
            n as int,
        ),
{
    match nth_in_forest(&e.children, tag, n) {
        Ok(x) => Some(x),
        Err(_) => None,
    }
}

/// The `n`-th element with tag `tag` in the forest, per `spec_nth_in_seq`;
/// `Err` carries how many matches were still wanted.
#[verifier::loop_isolation(false)]
fn nth_in_forest<'a>(s: &'a Vec<Element>, tag: &str, n: usize) -> (r: Result<&'a Element, usize>)
    ensures
        r matches Ok(x) ==> Ok::<Element, int>(*x) == spec_nth_in_seq(s@, tag@, n as int),
        r matches Err(m) ==> Err::<Element, int>(m as int) == spec_nth_in_seq(s@, tag@, n as int),
    decreases s@,
{
    let t = String::from_str(tag);
    let mut i: usize = 0;
    let mut want: usize = n;
    proof {
        assert(s@.subrange(0, s@.len() as int) =~= s@);
    }
    while i < s.len()
        invariant
            0 <= i <= s@.len(),
            t@ == tag@,
            spec_nth_in_seq(s@.subrange(i as int, s@.len() as int), tag@, want as int)
                == spec_nth_in_seq(s@, tag@, n as int),
        decreases s@.len() - i,
    {
        proof {
            let rest = s@.subrange(i as int, s@.len() as int);
            assert(rest[0] == s@[i as int]);
            assert(rest.subrange(1, rest.len() as int) =~= s@.subrange(i + 1, s@.len() as int));
        }
        let matches_here = s[i].tag == t;
        if matches_here && want == 0 {
            return Ok(&s[i]);
        }
        let w1: usize = if matches_here {
            want - 1
        } else {
            want
        };
        match nth_in_forest(&s[i].children, tag, w1) {
            Ok(x) => {
                return Ok(x);
            },
            Err(w2) => {
                want = w2;
            },
        }
        i = i + 1;
    }
    Err(want)
}

} // verus!
