//! Full builds: every package whose output paths a pull request changes. The package set is
//! listed before and after the pull request's commits are applied (`nix-env -qaP --no-name
//! --out-path`, one `<attribute> <output paths>` line per package), and every attribute that is
//! new or whose output paths differ is built.
use vstd::prelude::*;
use vstd::hash_map::StringHashMap;

use crate::packages::{finalize_packages, is_final_list};
use crate::trusted::{utf8_lossy, utf8_lossy_call};
use crate::text::{
    chars_eq, chars_of, chars_of_all, join, join_vec, slice_chars, split_char, split_char_vec,
    split_whitespace_vec, string_from_chars, string_views, strings_of_all, views, words,
};

verus! {

/// The attribute and output paths of one listing line: its first word, and its other words
/// joined by single spaces. Lines of fewer than two words list nothing.
pub open spec fn listing_entry(line: Seq<char>) -> Option<(Seq<char>, Seq<char>)> {
    let w = words(line);
    if w.len() >= 2 {
        Some((w[0], join(w.drop_first(), " "@)))
    } else {
        None
    }
}

/// The entries of some listing lines, in order.
pub open spec fn entries_of(ls: Seq<Seq<char>>) -> Seq<(Seq<char>, Seq<char>)>
    decreases ls.len(),
{
    if ls.len() == 0 {
        Seq::empty()
    } else {
        match listing_entry(ls.last()) {
            Some(e) => entries_of(ls.drop_last()).push(e),
            None => entries_of(ls.drop_last()),
        }
    }
}

/// The entries of a package listing.
pub open spec fn listing(text: Seq<char>) -> Seq<(Seq<char>, Seq<char>)> {
    entries_of(split_char(text, '\n'))
}

/// The output paths of each attribute of a listing (a later line for the same attribute wins).
pub open spec fn out_path_map(es: Seq<(Seq<char>, Seq<char>)>) -> Map<Seq<char>, Seq<char>>
    decreases es.len(),
{
    if es.len() == 0 {
        Map::empty()
    } else {
        out_path_map(es.drop_last()).insert(es.last().0, es.last().1)
    }
}

/// The entry is not listed with the same output paths before.
pub open spec fn is_rebuilt(before: Map<Seq<char>, Seq<char>>, e: (Seq<char>, Seq<char>)) -> bool {
    !(before.contains_key(e.0) && before[e.0] == e.1)
}

/// The attributes of the entries that are rebuilt, in order.
pub open spec fn rebuilt_names(
    before: Map<Seq<char>, Seq<char>>,
    es: Seq<(Seq<char>, Seq<char>)>,
) -> Seq<Seq<char>>
    decreases es.len(),
{
    if es.len() == 0 {
        Seq::empty()
    } else if is_rebuilt(before, es.last()) {
        rebuilt_names(before, es.drop_last()).push(es.last().0)
    } else {
        rebuilt_names(before, es.drop_last())
    }
}

/// The attributes that the change from listing `before` to listing `after` rebuilds: those of
/// `after` that `before` does not list with the same output paths, in the order of `after`.
pub open spec fn changed_attributes(before: Seq<char>, after: Seq<char>) -> Seq<Seq<char>> {
    rebuilt_names(out_path_map(listing(before)), listing(after))
}

/// A listing over mathematical values.
pub open spec fn pairs_view(v: Seq<(Vec<char>, Vec<char>)>) -> Seq<(Seq<char>, Seq<char>)> {
    v.map_values(|p: (Vec<char>, Vec<char>)| (p.0@, p.1@))
}

/// Reads the entries of a package listing.
fn listing_entries(text: &str) -> (r: Vec<(Vec<char>, Vec<char>)>)
    ensures
        pairs_view(r@) == listing(text@),
{
    let t = chars_of(text);
    let ls = split_char_vec(&t, '\n');
    let ghost lv = views(ls@);
    let sep = chars_of(" ");
    let mut r: Vec<(Vec<char>, Vec<char>)> = Vec::new();
    let mut i: usize = 0;
    assert(lv.take(0) =~= Seq::<Seq<char>>::empty());
    assert(pairs_view(r@) =~= Seq::<(Seq<char>, Seq<char>)>::empty());
    while i < ls.len()
        invariant
            lv == views(ls@),
            lv == split_char(text@, '\n'),
            sep@ == " "@,
            i <= ls@.len(),
            pairs_view(r@) == entries_of(lv.take(i as int)),
        decreases ls@.len() - i,
    {
        let ghost tk = lv.take(i + 1);
        assert(tk.drop_last() =~= lv.take(i as int));
        assert(tk.last() == ls@[i as int]@);
        let w = split_whitespace_vec(&ls[i]);
        if w.len() >= 2 {
            let first = slice_chars(&w[0], 0, w[0].len());
            assert(first@ =~= views(w@)[0]);
            let mut rest: Vec<Vec<char>> = Vec::new();
            let mut k: usize = 1;
            assert(views(rest@) =~= views(w@).drop_first().take(0));
            while k < w.len()
                invariant
                    1 <= k <= w@.len(),
                    views(rest@) == views(w@).drop_first().take(k - 1),
                decreases w@.len() - k,
            {
                let c = slice_chars(&w[k], 0, w[k].len());
                assert(c@ =~= w@[k as int]@);
                let ghost r0 = views(rest@);
                rest.push(c);
                assert(views(rest@) =~= r0.push(views(w@)[k as int]));
                assert(views(w@).drop_first().take(k as int) =~= views(w@).drop_first().take(
                    k - 1,
                ).push(views(w@)[k as int]));
                k += 1;
            }
            assert(views(w@).drop_first().take(w@.len() - 1) =~= views(w@).drop_first());
            let joined = join_vec(&rest, &sep);
            let ghost p0 = pairs_view(r@);
            let ghost e = (first@, joined@);
            r.push((first, joined));
            assert(pairs_view(r@) =~= p0.push(e));
        }
        i += 1;
    }
    assert(lv.take(ls@.len() as int) =~= lv);
    r
}

/// The attributes to build in a full build: those that the listing `after` (taken with the pull
/// request applied) shows new or with other output paths than the listing `before`.
pub fn changed_packages(before: &str, after: &str) -> (r: Vec<String>)
    ensures
        string_views(r@) == changed_attributes(before@, after@),
{
    let b = listing_entries(before);
    let ghost bv = pairs_view(b@);
    let mut m: StringHashMap<String> = StringHashMap::new();
    let mut i: usize = 0;
    assert(bv.take(0) =~= Seq::<(Seq<char>, Seq<char>)>::empty());
    while i < b.len()
        invariant
            bv == pairs_view(b@),
            i <= b@.len(),
            m@.dom() =~= out_path_map(bv.take(i as int)).dom(),
            forall|k: Seq<char>| #[trigger]
                m@.contains_key(k) ==> m@[k]@ == out_path_map(bv.take(i as int))[k],
        decreases b@.len() - i,
    {
        let ghost tk = bv.take(i + 1);
        assert(tk.drop_last() =~= bv.take(i as int));
        assert(tk.last() == (b@[i as int].0@, b@[i as int].1@));
        let key = string_from_chars(slice_chars(&b[i].0, 0, b[i].0.len()));
        let value = string_from_chars(slice_chars(&b[i].1, 0, b[i].1.len()));
        assert(key@ =~= b@[i as int].0@);
        assert(value@ =~= b@[i as int].1@);
        m.insert(key, value);
        i += 1;
    }
    assert(bv.take(b@.len() as int) =~= bv);
    let ghost before_map = out_path_map(bv);
    let a = listing_entries(after);
    let ghost av = pairs_view(a@);
    let mut out: Vec<Vec<char>> = Vec::new();
    let mut j: usize = 0;
    assert(av.take(0) =~= Seq::<(Seq<char>, Seq<char>)>::empty());
    assert(views(out@) =~= Seq::<Seq<char>>::empty());
    while j < a.len()
        invariant
            av == pairs_view(a@),
            j <= a@.len(),
            m@.dom() =~= before_map.dom(),
            forall|k: Seq<char>| #[trigger] m@.contains_key(k) ==> m@[k]@ == before_map[k],
            views(out@) == rebuilt_names(before_map, av.take(j as int)),
        decreases a@.len() - j,
    {
        let ghost tk = av.take(j + 1);
        assert(tk.drop_last() =~= av.take(j as int));
        let ghost e = (a@[j as int].0@, a@[j as int].1@);
        assert(tk.last() == e);
        let key = string_from_chars(slice_chars(&a[j].0, 0, a[j].0.len()));
        assert(key@ =~= e.0);
        let same = match m.get(key.as_str()) {
            Some(v) => {
                let vc = chars_of(v.as_str());
                chars_eq(&vc, &a[j].1)
            },
            None => false,
        };
        assert(same == !is_rebuilt(before_map, e));
        if !same {
            let c = slice_chars(&a[j].0, 0, a[j].0.len());
            let ghost o0 = views(out@);
            out.push(c);
            assert(views(out@) =~= o0.push(e.0));
        }
        j += 1;
    }
    assert(av.take(a@.len() as int) =~= av);
    strings_of_all(out)
}

/// The attributes to build in a full build, from the raw output of the two listings (invalid
/// UTF-8 replaced).
pub fn changed_packages_of_output(before: &[u8], after: &[u8]) -> (r: Vec<String>)
    ensures
        string_views(r@) == changed_attributes(utf8_lossy(before@), utf8_lossy(after@)),
{
    let b = utf8_lossy_call(before);
    let a = utf8_lossy_call(after);
    changed_packages(b.as_str(), a.as_str())
}

/// The packages a full build covers: the (expanded) requested names and the changed attributes,
/// made into the final list.
pub fn full_packages_to_build(requested: &Vec<String>, changed: &Vec<String>) -> (r: Vec<String>)
    ensures
        is_final_list(string_views(requested@) + string_views(changed@), string_views(r@)),
{
    let mut all = chars_of_all(requested);
    let more = chars_of_all(changed);
    let ghost a0 = views(all@);
    let mut k: usize = 0;
    while k < more.len()
        invariant
            k <= more@.len(),
            views(more@) == string_views(changed@),
            views(all@) == a0 + views(more@).take(k as int),
        decreases more@.len() - k,
    {
        let c = slice_chars(&more[k], 0, more[k].len());
        assert(c@ =~= more@[k as int]@);
        let ghost b0 = views(all@);
        all.push(c);
        assert(views(all@) =~= b0.push(views(more@)[k as int]));
        assert(views(more@).take(k + 1) =~= views(more@).take(k as int).push(views(more@)[k as int]));
        k += 1;
    }
    assert(views(more@).take(more@.len() as int) =~= views(more@));
    let all_strings = strings_of_all(all);
    finalize_packages(&all_strings)
}

// ---------------------------------------------------------------------------------------------
// Laws
// ---------------------------------------------------------------------------------------------

/// The rebuilt names are the attributes of the rebuilt entries.
proof fn lemma_rebuilt_names(before: Map<Seq<char>, Seq<char>>, es: Seq<(Seq<char>, Seq<char>)>, x: Seq<char>)
    ensures
        rebuilt_names(before, es).contains(x) <==> exists|i: int|
            0 <= i < es.len() && (#[trigger] es[i]).0 == x && is_rebuilt(before, es[i]),
    decreases es.len(),
{
    if es.len() > 0 {
        let t = es.drop_last();
        lemma_rebuilt_names(before, t, x);
        if exists|i: int| 0 <= i < t.len() && (#[trigger] t[i]).0 == x && is_rebuilt(before, t[i]) {
            let i = choose|i: int| 0 <= i < t.len() && (#[trigger] t[i]).0 == x && is_rebuilt(before, t[i]);
            assert(es[i] == t[i]);
        }
        if exists|i: int| 0 <= i < es.len() && (#[trigger] es[i]).0 == x && is_rebuilt(before, es[i]) {
            let i = choose|i: int| 0 <= i < es.len() && (#[trigger] es[i]).0 == x && is_rebuilt(before, es[i]);
            if i < es.len() - 1 {
                assert(t[i] == es[i]);
            }
        }
        if is_rebuilt(before, es.last()) {
            let r = rebuilt_names(before, t);
            assert(rebuilt_names(before, es) == r.push(es.last().0));
            if r.push(es.last().0).contains(x) && !r.contains(x) {
                let k = choose|k: int| 0 <= k < r.len() + 1 && r.push(es.last().0)[k] == x;
                assert(k == r.len());
            }
            if r.contains(x) {
                let k = choose|k: int| 0 <= k < r.len() && r[k] == x;
                assert(r.push(es.last().0)[k] == x);
            }
            if es.last().0 == x {
                assert(r.push(es.last().0)[r.len() as int] == x);
            }
        }
    }
}

/// A full build builds exactly the attributes that the listing with the pull request applied
/// shows with output paths that the listing before did not give them (new attributes
/// included); an attribute listed with the same output paths before and after is not built.
pub proof fn law_changed_attributes(before: Seq<char>, after: Seq<char>, x: Seq<char>)
    ensures
        changed_attributes(before, after).contains(x) <==> exists|i: int|
            0 <= i < listing(after).len() && (#[trigger] listing(after)[i]).0 == x && !(
            out_path_map(listing(before)).contains_key(x) && out_path_map(listing(before))[x]
                == listing(after)[i].1),
{
    lemma_rebuilt_names(out_path_map(listing(before)), listing(after), x);
}

} // verus!
