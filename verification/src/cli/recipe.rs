//! `myfeed recipe`: which recipes a directory holds, and what a recipe
//! validation run concludes.

use vstd::prelude::*;
use crate::scan::{ends_with, has_suffix, slice_chars, strip_all_suffixes, strip_suffixes};
use crate::decimal::{decimal_of, push_decimal};
use crate::text::{chars_of, string_of};

verus! {

// ---------------------------------------------------------------------------
// Listing recipes
// ---------------------------------------------------------------------------

/// The site a recipe file name stands for: a name ending in `-feed.yaml`,
/// without its `.yaml` extension and every trailing `-feed`.
pub open spec fn recipe_site(name: Seq<char>) -> Option<Seq<char>> {
    if ends_with(name, "-feed.yaml"@) {
        Some(strip_suffixes(name.take(name.len() - 5), "-feed"@))
    } else {
        None
    }
}

/// Lexicographic order of texts by character code (the order of `String`,
/// whose byte order is the code order).
pub open spec fn text_lt(a: Seq<char>, b: Seq<char>) -> bool
    decreases a.len(),
{
    if a.len() == 0 {
        b.len() > 0
    } else if b.len() == 0 {
        false
    } else if a[0] < b[0] {
        true
    } else if a[0] == b[0] {
        text_lt(a.drop_first(), b.drop_first())
    } else {
        false
    }
}

/// Whether texts are in strictly increasing order (sorted, no repeats).
pub open spec fn strictly_sorted(s: Seq<Seq<char>>) -> bool {
    forall|i: int, j: int| 0 <= i < j < s.len() ==> text_lt(#[trigger] s[i], #[trigger] s[j])
}

pub proof fn lemma_text_lt_irreflexive(a: Seq<char>)
    ensures
        !text_lt(a, a),
    decreases a.len(),
{
    if a.len() > 0 {
        lemma_text_lt_irreflexive(a.drop_first());
    }
}

pub proof fn lemma_text_lt_transitive(a: Seq<char>, b: Seq<char>, c: Seq<char>)
    requires
        text_lt(a, b),
        text_lt(b, c),
    ensures
        text_lt(a, c),
    decreases a.len(),
{
    if a.len() > 0 && b.len() > 0 && c.len() > 0 && a[0] == b[0] && b[0] == c[0] {
        lemma_text_lt_transitive(a.drop_first(), b.drop_first(), c.drop_first());
    }
}

pub proof fn lemma_text_lt_total(a: Seq<char>, b: Seq<char>)
    ensures
        text_lt(a, b) || text_lt(b, a) || a == b,
    decreases a.len(),
{
    if a.len() > 0 && b.len() > 0 {
        if a[0] == b[0] {
            lemma_text_lt_total(a.drop_first(), b.drop_first());
            if a.drop_first() == b.drop_first() {
                assert(a.drop_first().len() == b.drop_first().len());
                assert(a.len() == b.len());
                assert(a =~= b) by {
                    assert forall|i: int| 0 <= i < a.len() implies a[i] == b[i] by {
                        if i > 0 {
                            assert(a[i] == a.drop_first()[i - 1]);
                            assert(b[i] == b.drop_first()[i - 1]);
                        }
                    }
                }
            }
        }
    } else if a.len() == 0 && b.len() == 0 {
        assert(a =~= b);
    }
}

/// Compares two texts in that order.
pub fn less_than(a: &Vec<char>, b: &Vec<char>) -> (r: bool)
    ensures
        r == text_lt(a@, b@),
{
    let mut i: usize = 0;
    assert(a@.skip(0) =~= a@);
    assert(b@.skip(0) =~= b@);
    while i < a.len() && i < b.len() && a[i] == b[i]
        invariant
            i <= a.len(),
            i <= b.len(),
            text_lt(a@, b@) == text_lt(a@.skip(i as int), b@.skip(i as int)),
        decreases a.len() - i,
    {
        assert(a@.skip(i as int).drop_first() =~= a@.skip(i + 1));
        assert(b@.skip(i as int).drop_first() =~= b@.skip(i + 1));
        i = i + 1;
    }
    proof {
        if i < a.len() {
            assert(a@.skip(i as int)[0] == a@[i as int]);
        }
        if i < b.len() {
            assert(b@.skip(i as int)[0] == b@[i as int]);
        }
    }
    if i == a.len() {
        i < b.len()
    } else if i == b.len() {
        false
    } else {
        a[i] < b[i]
    }
}

/// The views of a vector of character vectors.
pub open spec fn texts(v: Seq<Vec<char>>) -> Seq<Seq<char>> {
    v.map_values(|x: Vec<char>| x@)
}

/// Inserts `x` into a strictly sorted list unless it is there already.
fn insert_sorted(v: &mut Vec<Vec<char>>, x: Vec<char>)
    requires
        strictly_sorted(texts(old(v)@)),
    ensures
        strictly_sorted(texts(final(v)@)),
        texts(final(v)@).to_set() == texts(old(v)@).to_set().insert(x@),
{
    let ghost xs = x@;
    let mut j: usize = 0;
    while j < v.len() && less_than(&v[j], &x)
        invariant
            j <= v.len(),
            v@ == old(v)@,
            forall|i: int| 0 <= i < j ==> text_lt(#[trigger] texts(v@)[i], xs),
            x@ == xs,
        decreases v.len() - j,
    {
        j = j + 1;
    }
    let ghost t = texts(v@);
    if j < v.len() && !less_than(&x, &v[j]) {
        // v[j] is neither below nor above x: it is x.
        proof {
            lemma_text_lt_total(xs, t[j as int]);
            assert(t.to_set().insert(xs) =~= t.to_set()) by {
                assert(t.to_set().contains(t[j as int]));
            }
        }
        return;
    }
    proof {
        assert forall|i: int| j <= i < t.len() implies text_lt(xs, #[trigger] t[i]) by {
            if i > j {
                lemma_text_lt_transitive(xs, t[j as int], t[i]);
            }
        }
    }
    v.insert(j, x);
    proof {
        let u = texts(v@);
        assert(u =~= t.insert(j as int, xs));
        assert forall|a: int, b: int| 0 <= a < b < u.len() implies text_lt(
            #[trigger] u[a],
            #[trigger] u[b],
        ) by {
            if a < j && b == j {
            } else if a < j && b > j {
                assert(u[b] == t[b - 1]);
                assert(text_lt(t[a], t[b - 1]));
            } else if a == j {
                assert(u[b] == t[b - 1]);
            } else if a > j {
                assert(u[a] == t[a - 1]);
                assert(u[b] == t[b - 1]);
            }
        }
        assert forall|y: Seq<char>| u.to_set().contains(y) <==> t.to_set().insert(xs).contains(
            y,
        ) by {
            if u.to_set().contains(y) {
                let k = choose|k: int| 0 <= k < u.len() && u[k] == y;
                if k < j {
                    assert(t[k] == y);
                } else if k > j {
                    assert(t[k - 1] == y);
                }
            }
            if t.to_set().contains(y) {
                let k = choose|k: int| 0 <= k < t.len() && t[k] == y;
                if k < j {
                    assert(u[k] == y);
                } else {
                    assert(u[k + 1] == y);
                }
            }
            if y == xs {
                assert(u[j as int] == y);
            }
        }
        assert(u.to_set() =~= t.to_set().insert(xs));
    }
}

/// The sites of a list of recipe file names.
pub open spec fn recipe_sites_of(names: Seq<String>) -> Set<Seq<char>>
    decreases names.len(),
{
    if names.len() == 0 {
        Set::empty()
    } else {
        let rest = recipe_sites_of(names.drop_last());
        match recipe_site(names.last()@) {
            Some(s) => rest.insert(s),
            None => rest,
        }
    }
}

/// The site of a recipe file name, if it is one.
pub fn recipe_site_of(name: &str) -> (r: Option<Vec<char>>)
    ensures
        match r {
            Some(s) => recipe_site(name@) == Some(s@),
            None => recipe_site(name@) is None,
        },
{
    let cs = chars_of(name);
    let suffix = chars_of("-feed.yaml");
    if !has_suffix(&cs, &suffix) {
        return None;
    }
    proof {
        reveal_strlit("-feed.yaml");
    }
    let stem = slice_chars(&cs, 0, cs.len() - 5);
    assert(stem@ =~= cs@.take(cs@.len() - 5));
    let site = strip_all_suffixes(&stem, &chars_of("-feed"));
    Some(site)
}

/// The sites that the recipe files `names` are for, sorted and without
/// repeats.
pub fn recipe_sites(names: &Vec<String>) -> (r: Vec<String>)
    ensures
        strictly_sorted(r@.map_values(|s: String| s@)),
        r@.map_values(|s: String| s@).to_set() == recipe_sites_of(names@),
{
    let mut sorted: Vec<Vec<char>> = Vec::new();
    let mut i: usize = 0;
    assert(names@.take(0) =~= Seq::<String>::empty());
    assert(texts(sorted@).to_set() =~= Set::<Seq<char>>::empty());
    while i < names.len()
        invariant
            i <= names.len(),
            strictly_sorted(texts(sorted@)),
            texts(sorted@).to_set() == recipe_sites_of(names@.take(i as int)),
        decreases names.len() - i,
    {
        proof {
            assert(names@.take(i + 1).drop_last() =~= names@.take(i as int));
            assert(names@.take(i + 1).last() == names@[i as int]);
        }
        match recipe_site_of(names[i].as_str()) {
            Some(site) => insert_sorted(&mut sorted, site),
            None => {},
        }
        i = i + 1;
    }
    assert(names@.take(names.len() as int) =~= names@);
    let mut out: Vec<String> = Vec::new();
    let mut k: usize = 0;
    while k < sorted.len()
        invariant
            k <= sorted.len(),
            out@.map_values(|s: String| s@) == texts(sorted@).take(k as int),
        decreases sorted.len() - k,
    {
        let ghost before = out@;
        out.push(string_of(&sorted[k]));
        assert(out@.map_values(|s: String| s@) =~= before.map_values(|s: String| s@).push(
            sorted@[k as int]@,
        ));
        assert(texts(sorted@).take(k + 1) =~= texts(sorted@).take(k as int).push(
            sorted@[k as int]@,
        ));
        k = k + 1;
    }
    assert(texts(sorted@).take(sorted.len() as int) =~= texts(sorted@));
    out
}

/// What `recipe list` prints for the sites found: a header with their
/// number, then each site, indented.
pub open spec fn recipe_list_text(sites: Seq<String>) -> Seq<Seq<char>> {
    seq!["Available recipes ("@ + decimal_of(sites.len()) + "):"@] + sites.map_values(
        |s: String| "  "@ + s@,
    )
}

/// The lines `recipe list` prints.
pub fn recipe_list_lines(sites: &Vec<String>) -> (r: Vec<String>)
    ensures
        r@.map_values(|s: String| s@) == recipe_list_text(sites@),
{
    let mut head = String::new();
    head.append("Available recipes (");
    push_decimal(&mut head, sites.len() as u64);
    head.append("):");
    let mut r: Vec<String> = Vec::new();
    r.push(head);
    let mut i: usize = 0;
    assert(r@.map_values(|s: String| s@) =~= seq![
        "Available recipes ("@ + decimal_of(sites@.len()) + "):"@,
    ] + sites@.take(0).map_values(|s: String| "  "@ + s@));
    while i < sites.len()
        invariant
            i <= sites.len(),
            r@.map_values(|s: String| s@) == seq![
                "Available recipes ("@ + decimal_of(sites@.len()) + "):"@,
            ] + sites@.take(i as int).map_values(|s: String| "  "@ + s@),
        decreases sites.len() - i,
    {
        let mut line = String::new();
        line.append("  ");
        line.append(sites[i].as_str());
        let ghost before = r@;
        r.push(line);
        assert(r@.map_values(|s: String| s@) =~= before.map_values(|s: String| s@).push(
            "  "@ + sites@[i as int]@,
        ));
        assert(sites@.take(i + 1).map_values(|s: String| "  "@ + s@) =~= sites@.take(
            i as int,
        ).map_values(|s: String| "  "@ + s@).push("  "@ + sites@[i as int]@));
        i = i + 1;
    }
    assert(sites@.take(sites.len() as int) =~= sites@);
    r
}

// ---------------------------------------------------------------------------
// Validating a recipe
// ---------------------------------------------------------------------------

/// The error for a site without a recipe file.
pub fn recipe_not_found(site: &str) -> (r: String)
    ensures
        r@ == "recipe not found for site: "@ + site@,
{
    let mut r = String::new();
    r.append("recipe not found for site: ");
    r.append(site);
    r
}

/// What a validation run concludes from the recipe's result: it fails when
/// the run ended in an error that carries a message, and passes otherwise.
pub fn validation_result(failed: bool, error: Option<String>) -> (r: Result<(), String>)
    ensures
        failed && error is Some ==> (r matches Err(e) && e@ == "recipe error: "@ + error->0@),
        !(failed && error is Some) ==> r is Ok,
{
    if failed {
        if let Some(e) = error {
            let mut m = String::new();
            m.append("recipe error: ");
            m.append(e.as_str());
            return Err(m);
        }
    }
    Ok(())
}

} // verus!
