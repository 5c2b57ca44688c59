//! Grouping of form fields into pages, the rule that a fieldset stays on one
//! page, and the config document built from a struct's fields.
use vstd::prelude::*;
use crate::gen::form::FormField;
use crate::gen::page::{full_page_spec, gen_full_page, pages_view, FormPage, UiAttrs};
use crate::strs::str_eq;

verus! {

/// The index of the first occurrence of `x` in `s`, if any.
pub open spec fn first_index<A>(s: Seq<A>, x: A) -> Option<int>
    decreases s.len(),
{
    if s.len() == 0 {
        None
    } else if s[0] == x {
        Some(0)
    } else {
        match first_index(s.skip(1), x) {
            Some(i) => Some(i + 1),
            None => None,
        }
    }
}

/// `first_index` finds the first occurrence, and finds none only where there is none.
pub proof fn lemma_first_index<A>(s: Seq<A>, x: A)
    ensures
        match first_index(s, x) {
            Some(i) => 0 <= i < s.len() && s[i] == x && forall|j: int| 0 <= j < i ==> s[j] != x,
            None => forall|j: int| 0 <= j < s.len() ==> s[j] != x,
        },
    decreases s.len(),
{
    if s.len() > 0 && s[0] != x {
        lemma_first_index(s.skip(1), x);
        assert forall|j: int| 0 < j < s.len() implies s[j] == s.skip(1)[j - 1] by {}
    }
}

/// An index is the first occurrence when it holds `x` and no earlier one does.
proof fn lemma_first_index_at<A>(s: Seq<A>, x: A, i: int)
    requires
        0 <= i < s.len(),
        s[i] == x,
        forall|j: int| 0 <= j < i ==> s[j] != x,
    ensures
        first_index(s, x) == Some(i),
{
    lemma_first_index(s, x);
    match first_index(s, x) {
        Some(k) => {
            assert(!(k < i));
            assert(!(i < k));
        },
        None => {
            assert(s[i] == x);
        },
    }
}

/// The names of grouped pages.
pub open spec fn page_names(g: Seq<(Seq<char>, Seq<FormField>)>) -> Seq<Seq<char>> {
    g.map_values(|p: (Seq<char>, Seq<FormField>)| p.0)
}

/// Fields grouped by page: pages in the order their name first occurs, each
/// with its fields in declaration order.
pub open spec fn group_pages(fields: Seq<FormField>) -> Seq<(Seq<char>, Seq<FormField>)>
    decreases fields.len(),
{
    if fields.len() == 0 {
        Seq::empty()
    } else {
        let g = group_pages(fields.drop_last());
        let f = fields.last();
        match first_index(page_names(g), f.page@) {
            Some(j) => g.update(j, (g[j].0, g[j].1.push(f))),
            None => g.push((f.page@, seq![f])),
        }
    }
}

/// The first index in `names` holding `n`.
fn find_name(names: &Vec<String>, n: &str) -> (r: Option<usize>)
    ensures
        match r {
            Some(j) => j < names.len() && first_index(names@.map_values(|s: String| s@), n@) == Some(
                j as int,
            ),
            None => first_index(names@.map_values(|s: String| s@), n@) is None,
        },
{
    let ghost vs = names@.map_values(|s: String| s@);
    let mut j: usize = 0;
    while j < names.len()
        invariant
            j <= names.len(),
            vs == names@.map_values(|s: String| s@),
            forall|m: int| 0 <= m < j ==> vs[m] != n@,
        decreases names.len() - j,
    {
        if str_eq(names[j].as_str(), n) {
            proof {
                lemma_first_index_at(vs, n@, j as int);
            }
            return Some(j);
        }
        j = j + 1;
    }
    proof {
        lemma_first_index(vs, n@);
        match first_index(vs, n@) {
            Some(k) => {
                assert(vs[k] == n@);
            },
            None => {},
        }
    }
    None
}

/// The fields grouped into pages (see `group_pages`).
pub fn group_by_page(fields: Vec<FormField>) -> (r: Vec<FormPage>)
    ensures
        pages_view(r@) == group_pages(fields@),
{
    let ghost orig = fields@;
    let n0 = fields.len();
    assert(orig.len() == n0);
    let mut rest = fields;
    let mut names: Vec<String> = Vec::new();
    let mut groups: Vec<Vec<FormField>> = Vec::new();
    let mut i: usize = 0;
    proof {
        assert(orig.skip(0) =~= orig);
        assert(orig.take(0) =~= Seq::<FormField>::empty());
    }
    while rest.len() > 0
        invariant
            i <= orig.len(),
            orig.len() <= usize::MAX,
            rest@ == orig.skip(i as int),
            names.len() == groups.len(),
            names.len() == group_pages(orig.take(i as int)).len(),
            forall|k: int|
                0 <= k < names.len() ==> (#[trigger] names@[k])@ == group_pages(orig.take(i as int))[k].0
                    && groups@[k]@ == group_pages(orig.take(i as int))[k].1,
        decreases rest.len(),
    {
        let ghost g = group_pages(orig.take(i as int));
        proof {
            assert(orig.take(i + 1).drop_last() =~= orig.take(i as int));
            assert(orig.take(i + 1).last() == orig[i as int]);
            assert(rest@[0] == orig[i as int]);
            assert(names@.map_values(|s: String| s@) =~= page_names(g));
        }
        let f = rest.remove(0);
        proof {
            assert(rest@ =~= orig.skip(i + 1));
        }
        match find_name(&names, f.page.as_str()) {
            Some(j) => {
                let ghost pre_groups = groups@;
                let mut grp = groups.remove(j);
                grp.push(f);
                let ghost gv = grp;
                groups.insert(j, grp);
                proof {
                    assert(groups@[j as int] == gv);
                    assert forall|k: int| 0 <= k < groups.len() && k != j implies groups@[k]
                        == pre_groups[k] by {
                        if k < j {
                        } else {
                        }
                    }
                }
                proof {
                    let g2 = group_pages(orig.take(i + 1));
                    assert(g2 == g.update(j as int, (g[j as int].0, g[j as int].1.push(f))));
                    assert forall|k: int| 0 <= k < names.len() implies (#[trigger] names@[k])@ == g2[k].0
                        && groups@[k]@ == g2[k].1 by {
                        assert(names@[k]@ == g[k].0);
                        assert(pre_groups[k]@ == g[k].1);
                        if k == j {
                            assert(gv@ =~= pre_groups[k]@.push(f));
                            assert(groups@[k]@ =~= g2[k].1);
                        } else {
                            assert(groups@[k] == pre_groups[k]);
                        }
                    }
                }
            },
            None => {
                let ghost pre_names = names@;
                let ghost pre_groups = groups@;
                let name = f.page.clone();
                let mut grp: Vec<FormField> = Vec::new();
                grp.push(f);
                names.push(name);
                groups.push(grp);
                proof {
                    assert(names@[names.len() - 1]@ == f.page@);
                    assert(groups@[groups.len() - 1]@ =~= seq![f]);
                    assert forall|k: int| 0 <= k < pre_names.len() implies names@[k] == pre_names[k]
                        && groups@[k] == pre_groups[k] by {}
                }
                proof {
                    let g2 = group_pages(orig.take(i + 1));
                    assert(g2 == g.push((f.page@, seq![f])));
                    assert forall|k: int| 0 <= k < names.len() implies (#[trigger] names@[k])@ == g2[k].0
                        && groups@[k]@ == g2[k].1 by {
                        if k == names.len() - 1 {
                            assert(groups@[k]@ =~= g2[k].1);
                        }
                    }
                }
            },
        }
        i = i + 1;
    }
    proof {
        assert(orig.take(i as int) =~= orig);
    }
    let ghost g = group_pages(orig);
    let mut out: Vec<FormPage> = Vec::new();
    let ghost n = names.len();
    while names.len() > 0
        invariant
            names.len() == groups.len(),
            out.len() + names.len() == n,
            n == g.len(),
            forall|k: int| 0 <= k < out.len() ==> pages_view(out@)[k] == g[k],
            forall|k: int|
                0 <= k < names.len() ==> (#[trigger] names@[k])@ == g[out.len() + k].0
                    && groups@[k]@ == g[out.len() + k].1,
        decreases names.len(),
    {
        let ghost pre_names = names@;
        let ghost pre_groups = groups@;
        let name = names.remove(0);
        let fs = groups.remove(0);
        out.push(FormPage { name, fields: fs });
        proof {
            assert forall|k: int| 0 <= k < names.len() implies (#[trigger] names@[k])@ == g[out.len() + k].0
                && groups@[k]@ == g[out.len() + k].1 by {
                assert(names@[k] == pre_names[k + 1]);
                assert(groups@[k] == pre_groups[k + 1]);
            }
            assert(pages_view(out@)[out.len() - 1] == g[out.len() - 1]);
        }
    }
    proof {
        assert(pages_view(out@) =~= g);
    }
    out
}

/// The fieldset of each field of one page that has one, paired with the page name.
pub open spec fn page_fieldsets(fields: Seq<FormField>, page: Seq<char>) -> Seq<(Seq<char>, Seq<char>)>
    decreases fields.len(),
{
    if fields.len() == 0 {
        Seq::empty()
    } else {
        page_fieldsets(fields.drop_last(), page) + match fields.last().fieldset {
            Some(fs) => seq![(fs@, page)],
            None => Seq::empty(),
        }
    }
}

/// The (fieldset, page) pairs of all pages, pages and fields in order.
pub open spec fn fieldset_pairs(pages: Seq<(Seq<char>, Seq<FormField>)>) -> Seq<(Seq<char>, Seq<char>)>
    decreases pages.len(),
{
    if pages.len() == 0 {
        Seq::empty()
    } else {
        fieldset_pairs(pages.drop_last()) + page_fieldsets(pages.last().1, pages.last().0)
    }
}

/// The fieldset names of the pairs.
pub open spec fn pair_names(pairs: Seq<(Seq<char>, Seq<char>)>) -> Seq<Seq<char>> {
    pairs.map_values(|p: (Seq<char>, Seq<char>)| p.0)
}

/// The first pair whose fieldset was first seen on another page: the fieldset,
/// the page it was first seen on, and the pair's page.
pub open spec fn fieldset_conflict(pairs: Seq<(Seq<char>, Seq<char>)>) -> Option<
    (Seq<char>, Seq<char>, Seq<char>),
>
    decreases pairs.len(),
{
    if pairs.len() == 0 {
        None
    } else {
        match fieldset_conflict(pairs.drop_last()) {
            Some(c) => Some(c),
            None => {
                let prev = pairs.drop_last();
                let fs = pairs.last().0;
                let page = pairs.last().1;
                match first_index(pair_names(prev), fs) {
                    Some(j) => if prev[j].1 != page {
                        Some((fs, prev[j].1, page))
                    } else {
                        None
                    },
                    None => None,
                }
            },
        }
    }
}

/// Start of the split-fieldset error.
pub const FIELDSET_ERR_A: &'static str = "fieldset \"";
/// After the fieldset name.
pub const FIELDSET_ERR_B: &'static str = "\" appears on pages \"";
/// Between the two page names.
pub const FIELDSET_ERR_C: &'static str = "\" and \"";
/// End of the split-fieldset error.
pub const FIELDSET_ERR_D: &'static str = "\"; groups cannot be split across pages";

/// The error for a fieldset seen on two pages.
pub open spec fn fieldset_error(fs: Seq<char>, first: Seq<char>, page: Seq<char>) -> Seq<char> {
    FIELDSET_ERR_A@ + fs + FIELDSET_ERR_B@ + first + FIELDSET_ERR_C@ + page + FIELDSET_ERR_D@
}

/// The (fieldset, page) pairs of the pages, as two parallel vectors.
fn collect_fieldsets<'a>(pages: &'a Vec<FormPage>, fss: &mut Vec<&'a str>, pgs: &mut Vec<&'a str>)
    requires
        old(fss).len() == 0,
        old(pgs).len() == 0,
    ensures
        final(fss).len() == final(pgs).len(),
        final(fss).len() == fieldset_pairs(pages_view(pages@)).len(),
        forall|k: int|
            0 <= k < final(fss).len() ==> (#[trigger] final(fss)@[k])@ == fieldset_pairs(
                pages_view(pages@),
            )[k].0 && final(pgs)@[k]@ == fieldset_pairs(pages_view(pages@))[k].1,
{
    let ghost pv = pages_view(pages@);
    proof {
        assert(pv.take(0) =~= Seq::<(Seq<char>, Seq<FormField>)>::empty());
    }
    let mut a: usize = 0;
    while a < pages.len()
        invariant
            a <= pages.len(),
            pv == pages_view(pages@),
            fss.len() == pgs.len(),
            fss.len() == fieldset_pairs(pv.take(a as int)).len(),
            forall|k: int|
                0 <= k < fss.len() ==> (#[trigger] fss@[k])@ == fieldset_pairs(pv.take(a as int))[k].0
                    && pgs@[k]@ == fieldset_pairs(pv.take(a as int))[k].1,
        decreases pages.len() - a,
    {
        let p = &pages[a];
        let ghost base = fieldset_pairs(pv.take(a as int));
        let ghost name = p.name@;
        let mut b: usize = 0;
        proof {
            assert(p.fields@.take(0) =~= Seq::<FormField>::empty());
            assert(base + page_fieldsets(p.fields@.take(0), name) =~= base);
        }
        while b < p.fields.len()
            invariant
                b <= p.fields.len(),
                a < pages.len(),
                *p == pages@[a as int],
                name == p.name@,
                fss.len() == pgs.len(),
                fss.len() == (base + page_fieldsets(p.fields@.take(b as int), name)).len(),
                forall|k: int|
                    0 <= k < fss.len() ==> (#[trigger] fss@[k])@ == (base + page_fieldsets(
                        p.fields@.take(b as int),
                        name,
                    ))[k].0 && pgs@[k]@ == (base + page_fieldsets(p.fields@.take(b as int), name))[k].1,
            decreases p.fields.len() - b,
        {
            proof {
                assert(p.fields@.take(b + 1).drop_last() =~= p.fields@.take(b as int));
            }
            let ghost pre = base + page_fieldsets(p.fields@.take(b as int), name);
            let f = &p.fields[b];
            match &f.fieldset {
                Some(fs) => {
                    fss.push(fs.as_str());
                    pgs.push(p.name.as_str());
                    proof {
                        assert(base + page_fieldsets(p.fields@.take(b + 1), name) =~= pre.push(
                            (fs@, name),
                        ));
                    }
                },
                None => {
                    proof {
                        assert(base + page_fieldsets(p.fields@.take(b + 1), name) =~= pre);
                    }
                },
            }
            b = b + 1;
        }
        proof {
            assert(p.fields@.take(p.fields.len() as int) =~= p.fields@);
            assert(pv.take(a + 1).drop_last() =~= pv.take(a as int));
            assert(pv.take(a + 1).last() == (p.name@, p.fields@));
            assert(fieldset_pairs(pv.take(a + 1)) == base + page_fieldsets(p.fields@, name));
        }
        a = a + 1;
    }
    proof {
        assert(pv.take(pages.len() as int) =~= pv);
        assert forall|k: int| 0 <= k < fss.len() implies (#[trigger] fss@[k])@ == fieldset_pairs(pv)[k].0
            && pgs@[k]@ == fieldset_pairs(pv)[k].1 by {}
    }
}

/// The first index before `i` whose fieldset is the one at `i`.
fn first_same(fss: &Vec<&str>, i: usize, Ghost(pairs): Ghost<Seq<(Seq<char>, Seq<char>)>>) -> (r: Option<
    usize,
>)
    requires
        i < fss.len(),
        fss.len() == pairs.len(),
        forall|k: int| 0 <= k < fss.len() ==> (#[trigger] fss@[k])@ == pairs[k].0,
    ensures
        match r {
            Some(j) => j < i && first_index(pair_names(pairs.take(i as int)), pairs[i as int].0) == Some(
                j as int,
            ),
            None => first_index(pair_names(pairs.take(i as int)), pairs[i as int].0) is None,
        },
{
    let ghost names = pair_names(pairs.take(i as int));
    let mut j: usize = 0;
    while j < i
        invariant
            j <= i,
            i < fss.len(),
            fss.len() == pairs.len(),
            names == pair_names(pairs.take(i as int)),
            forall|k: int| 0 <= k < fss.len() ==> (#[trigger] fss@[k])@ == pairs[k].0,
            forall|m: int| 0 <= m < j ==> names[m] != pairs[i as int].0,
        decreases i - j,
    {
        proof {
            assert(names[j as int] == fss@[j as int]@);
        }
        if str_eq(fss[j], fss[i]) {
            proof {
                lemma_first_index_at(names, pairs[i as int].0, j as int);
            }
            return Some(j);
        }
        j = j + 1;
    }
    proof {
        lemma_first_index(names, pairs[i as int].0);
        match first_index(names, pairs[i as int].0) {
            Some(k) => {
                assert(names[k] == pairs[i as int].0);
            },
            None => {},
        }
    }
    None
}

/// Checks that no fieldset is split across pages: the first fieldset met again
/// on another page than the one it was first met on is an error.
pub fn check_fieldsets(pages: &Vec<FormPage>) -> (r: Result<(), String>)
    ensures
        match fieldset_conflict(fieldset_pairs(pages_view(pages@))) {
            Some(c) => r matches Err(m) && m@ == fieldset_error(c.0, c.1, c.2),
            None => r is Ok,
        },
{
    let ghost pairs = fieldset_pairs(pages_view(pages@));
    let mut fss: Vec<&str> = Vec::new();
    let mut pgs: Vec<&str> = Vec::new();
    collect_fieldsets(pages, &mut fss, &mut pgs);
    proof {
        assert(fss.len() == pairs.len());
        assert forall|k: int| 0 <= k < fss.len() implies (#[trigger] fss@[k])@ == pairs[k].0 && pgs@[k]@
            == pairs[k].1 by {
            assert(fss@[k]@ == pairs[k].0);
        }
    }
    let mut i: usize = 0;
    while i < fss.len()
        invariant
            i <= fss.len(),
            fss.len() == pgs.len(),
            fss.len() == pairs.len(),
            forall|k: int| 0 <= k < fss.len() ==> (#[trigger] fss@[k])@ == pairs[k].0 && pgs@[k]@ == pairs[k].1,
            fieldset_conflict(pairs.take(i as int)) is None,
            pairs == fieldset_pairs(pages_view(pages@)),
        decreases fss.len() - i,
    {
        let ghost prev = pairs.take(i as int);
        proof {
            assert(pairs.take(i + 1).drop_last() =~= prev);
            assert(pairs.take(i + 1).last() == pairs[i as int]);
        }
        let found_at = first_same(&fss, i, Ghost(pairs));
        if let Some(j) = found_at {
            proof {
                assert(fss@[j as int]@ == pairs[j as int].0);
                assert(fss@[i as int]@ == pairs[i as int].0);
            }
            if !str_eq(pgs[j], pgs[i]) {
                let mut msg = FIELDSET_ERR_A.to_owned();
                msg.append(fss[i]);
                msg.append(FIELDSET_ERR_B);
                msg.append(pgs[j]);
                msg.append(FIELDSET_ERR_C);
                msg.append(pgs[i]);
                msg.append(FIELDSET_ERR_D);
                proof {
                    assert(prev[j as int] == pairs[j as int]);
                    assert(fieldset_conflict(pairs.take(i + 1)) == Some(
                        (pairs[i as int].0, pairs[j as int].1, pairs[i as int].1),
                    ));
                    lemma_conflict_prefix(pairs, i + 1);
                    assert(msg@ =~= fieldset_error(
                        pairs[i as int].0,
                        pairs[j as int].1,
                        pairs[i as int].1,
                    ));
                }
                return Err(msg);
            }
            proof {
                assert(prev[j as int] == pairs[j as int]);
            }
        } else {
            proof {
                lemma_first_index(pair_names(prev), pairs[i as int].0);
                match first_index(pair_names(prev), pairs[i as int].0) {
                    Some(k) => {
                        assert(pair_names(prev)[k] == pairs[i as int].0);
                    },
                    None => {},
                }
            }
        }
        i = i + 1;
    }
    proof {
        assert(pairs.take(fss.len() as int) =~= pairs);
    }
    Ok(())
}

/// A conflict found in a prefix is the conflict of the whole sequence.
proof fn lemma_conflict_prefix(pairs: Seq<(Seq<char>, Seq<char>)>, n: int)
    requires
        0 <= n <= pairs.len(),
        fieldset_conflict(pairs.take(n)) is Some,
    ensures
        fieldset_conflict(pairs) == fieldset_conflict(pairs.take(n)),
    decreases pairs.len() - n,
{
    if n < pairs.len() {
        assert(pairs.take(n + 1).drop_last() =~= pairs.take(n));
        lemma_conflict_prefix(pairs, n + 1);
    } else {
        assert(pairs.take(n) =~= pairs);
    }
}

/// The config document of a struct: its form fields grouped into pages, checked
/// for split fieldsets, then assembled.
pub open spec fn config_page_spec(ui: UiAttrs, fields: Seq<FormField>) -> Result<Seq<char>, Seq<char>> {
    let g = group_pages(fields);
    match fieldset_conflict(fieldset_pairs(g)) {
        Some(c) => Err(fieldset_error(c.0, c.1, c.2)),
        None => full_page_spec(ui, g),
    }
}

/// Builds the config document from the struct's form fields, in declaration order.
pub fn build_config_page(ui: &UiAttrs, fields: Vec<FormField>) -> (r: Result<String, String>)
    ensures
        match config_page_spec(*ui, fields@) {
            Ok(h) => r matches Ok(s) && s@ == h,
            Err(e) => r matches Err(m) && m@ == e,
        },
{
    let pages = group_by_page(fields);
    match check_fieldsets(&pages) {
        Ok(()) => {},
        Err(e) => {
            return Err(e);
        },
    }
    gen_full_page(ui, &pages)
}

} // verus!
