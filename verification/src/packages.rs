//! Which packages a pull request build covers: the names the user asked for, the names taken
//! from commit subjects, and the final sorted list with exclusions applied.
use vstd::prelude::*;

use crate::text::{
    chars_eq, chars_of, chars_of_all, concat, contains, contains_str, has_prefix, non_empty,
    non_empty_vec, opt_view, slice_chars, split_char, split_char_vec, split_once, split_once_str,
    starts_with, starts_with_str, string_from_chars, string_views, strings_of_all, views,
};
use crate::text::{lemma_no_char_no_match, lemma_split_once_at, occurs_at, pat_pos, lemma_pat_pos};
use crate::trusted::{brace_expand_call, brace_expand_returns, brace_expand_returns_exec, brace_expansion};

verus! {

// ---------------------------------------------------------------------------------------------
// Ordering of names
// ---------------------------------------------------------------------------------------------

/// Lexicographic order by code point, which is the order `Ord for str` gives (it compares the
/// UTF-8 bytes, and UTF-8 preserves code point order).
pub open spec fn lex_lt(a: Seq<char>, b: Seq<char>) -> bool
    decreases a.len(),
{
    if b.len() == 0 {
        false
    } else if a.len() == 0 {
        true
    } else if a[0] != b[0] {
        (a[0] as u32) < (b[0] as u32)
    } else {
        lex_lt(a.drop_first(), b.drop_first())
    }
}

/// No name is before itself.
pub proof fn lemma_lex_irreflexive(a: Seq<char>)
    ensures
        !lex_lt(a, a),
    decreases a.len(),
{
    if a.len() > 0 {
        lemma_lex_irreflexive(a.drop_first());
    }
}

/// Of two different names, one is before the other.
pub proof fn lemma_lex_total(a: Seq<char>, b: Seq<char>)
    requires
        a != b,
    ensures
        lex_lt(a, b) || lex_lt(b, a),
    decreases a.len(),
{
    if a.len() == 0 {
        assert(b.len() > 0) by {
            if b.len() == 0 {
                assert(a =~= b);
            }
        }
    } else if b.len() == 0 {
    } else if a[0] != b[0] {
        assert((a[0] as u32) != (b[0] as u32)) by {
            vstd::utf8::char_u32_cast(a[0], a[0] as u32);
            vstd::utf8::char_u32_cast(b[0], b[0] as u32);
        }
    } else {
        assert(a.drop_first() != b.drop_first()) by {
            if a.drop_first() == b.drop_first() {
                assert(a =~= seq![a[0]] + a.drop_first());
                assert(b =~= seq![b[0]] + b.drop_first());
            }
        }
        lemma_lex_total(a.drop_first(), b.drop_first());
    }
}

/// The order is transitive.
pub proof fn lemma_lex_transitive(a: Seq<char>, b: Seq<char>, c: Seq<char>)
    requires
        lex_lt(a, b),
        lex_lt(b, c),
    ensures
        lex_lt(a, c),
    decreases a.len(),
{
    if a.len() > 0 && b.len() > 0 && c.len() > 0 && a[0] == b[0] && b[0] == c[0] {
        lemma_lex_transitive(a.drop_first(), b.drop_first(), c.drop_first());
    }
}

/// The order is asymmetric.
pub proof fn lemma_lex_asymmetric(a: Seq<char>, b: Seq<char>)
    requires
        lex_lt(a, b),
    ensures
        !lex_lt(b, a),
{
    if lex_lt(b, a) {
        lemma_lex_transitive(a, b, a);
        lemma_lex_irreflexive(a);
    }
}

/// Whether `a` comes before `b`.
pub fn lex_less(a: &Vec<char>, b: &Vec<char>) -> (r: bool)
    ensures
        r == lex_lt(a@, b@),
{
    let mut i: usize = 0;
    assert(a@.skip(0) =~= a@ && b@.skip(0) =~= b@);
    loop
        invariant
            i <= a@.len(),
            i <= b@.len(),
            lex_lt(a@, b@) == lex_lt(a@.skip(i as int), b@.skip(i as int)),
        decreases a@.len() - i,
    {
        let ghost sa = a@.skip(i as int);
        let ghost sb = b@.skip(i as int);
        if i == b.len() {
            return false;
        }
        if i == a.len() {
            return true;
        }
        if a[i] != b[i] {
            return (a[i] as u32) < (b[i] as u32);
        }
        assert(sa.drop_first() =~= a@.skip(i + 1));
        assert(sb.drop_first() =~= b@.skip(i + 1));
        i += 1;
    }
}

/// Every name comes before every later name.
pub open spec fn strictly_sorted(s: Seq<Seq<char>>) -> bool {
    forall|i: int, j: int| 0 <= i < j < s.len() ==> lex_lt(#[trigger] s[i], #[trigger] s[j])
}

/// Two strictly sorted sequences with the same members are equal.
pub proof fn lemma_sorted_unique(a: Seq<Seq<char>>, b: Seq<Seq<char>>)
    requires
        strictly_sorted(a),
        strictly_sorted(b),
        forall|x: Seq<char>| a.contains(x) <==> b.contains(x),
    ensures
        a == b,
    decreases a.len(),
{
    if a.len() == 0 {
        if b.len() > 0 {
            assert(b.contains(b[0]));
        }
        assert(a =~= b);
    } else {
        assert(a.contains(a[0]));
        assert(b.len() > 0);
        assert(b.contains(b[0]));
        let ia = choose|i: int| 0 <= i < a.len() && a[i] == b[0];
        let ib = choose|i: int| 0 <= i < b.len() && b[i] == a[0];
        // a[0] is the least member of a, b[0] the least of b; they are equal.
        if a[0] != b[0] {
            if ib > 0 {
                assert(lex_lt(b[0], b[ib]));
            }
            if ia > 0 {
                assert(lex_lt(a[0], a[ia]));
            }
            lemma_lex_asymmetric(a[0], b[0]);
        }
        let ta = a.drop_first();
        let tb = b.drop_first();
        assert forall|x: Seq<char>| ta.contains(x) <==> tb.contains(x) by {
            if ta.contains(x) {
                let k = choose|k: int| 0 <= k < ta.len() && ta[k] == x;
                assert(a[k + 1] == x);
                assert(lex_lt(a[0], a[k + 1]));
                lemma_lex_irreflexive(x);
                assert(b.contains(x));
                let m = choose|m: int| 0 <= m < b.len() && b[m] == x;
                assert(m != 0);
                assert(tb[m - 1] == x);
            }
            if tb.contains(x) {
                let k = choose|k: int| 0 <= k < tb.len() && tb[k] == x;
                assert(b[k + 1] == x);
                assert(lex_lt(b[0], b[k + 1]));
                lemma_lex_irreflexive(x);
                assert(a.contains(x));
                let m = choose|m: int| 0 <= m < a.len() && a[m] == x;
                assert(m != 0);
                assert(ta[m - 1] == x);
            }
        }
        lemma_sorted_unique(ta, tb);
        assert(a =~= seq![a[0]] + ta);
        assert(b =~= seq![b[0]] + tb);
    }
}

/// Adds `x` to a strictly sorted vector of names unless it is there already.
fn insert_sorted(r: &mut Vec<Vec<char>>, x: Vec<char>)
    requires
        strictly_sorted(views(old(r)@)),
    ensures
        strictly_sorted(views(final(r)@)),
        forall|y: Seq<char>|
            views(final(r)@).contains(y) <==> (views(old(r)@).contains(y) || y == x@),
{
    let ghost old_v = views(r@);
    let mut i: usize = 0;
    while i < r.len() && lex_less(&r[i], &x)
        invariant
            i <= r@.len(),
            views(r@) == old_v,
            forall|k: int| 0 <= k < i ==> lex_lt(#[trigger] old_v[k], x@),
        decreases r@.len() - i,
    {
        i += 1;
    }
    if i < r.len() && chars_eq(&r[i], &x) {
        assert(old_v[i as int] == x@);
        assert forall|y: Seq<char>| old_v.contains(y) <==> (old_v.contains(y) || y == x@) by {
            if y == x@ {
                assert(old_v[i as int] == y);
            }
        }
        return ;
    }
    if i < r.len() {
        proof {
            assert(old_v[i as int] != x@);
            lemma_lex_total(old_v[i as int], x@);
        }
    }
    r.insert(i, x);
    let ghost nv = views(r@);
    assert(nv =~= old_v.insert(i as int, x@));
    assert forall|a: int, b: int| 0 <= a < b < nv.len() implies lex_lt(
        #[trigger] nv[a],
        #[trigger] nv[b],
    ) by {
        if b < i {
        } else if b == i {
        } else if a < i {
            // nv[a] < x < old_v[i] <= nv[b]
            if b - 1 > i {
                lemma_lex_transitive(x@, old_v[i as int], old_v[b - 1]);
            }
            lemma_lex_transitive(old_v[a], x@, old_v[b - 1]);
        } else if a == i {
            if b - 1 > i {
                lemma_lex_transitive(x@, old_v[i as int], old_v[b - 1]);
            }
        } else {
        }
    }
    assert forall|y: Seq<char>| nv.contains(y) <==> (old_v.contains(y) || y == x@) by {
        if nv.contains(y) {
            let k = choose|k: int| 0 <= k < nv.len() && nv[k] == y;
            if k < i {
                assert(old_v[k] == y);
            } else if k > i {
                assert(old_v[k - 1] == y);
            }
        }
        if old_v.contains(y) {
            let k = choose|k: int| 0 <= k < old_v.len() && old_v[k] == y;
            if k < i {
                assert(nv[k] == y);
            } else {
                assert(nv[k + 1] == y);
            }
        }
        if y == x@ {
            assert(nv[i as int] == y);
        }
    }
}

/// Whether `x` is one of the names in `v`.
fn contains_name(v: &Vec<Vec<char>>, x: &Vec<char>) -> (b: bool)
    ensures
        b == views(v@).contains(x@),
{
    let mut i: usize = 0;
    while i < v.len()
        invariant
            i <= v@.len(),
            forall|k: int| 0 <= k < i ==> views(v@)[k] != x@,
        decreases v@.len() - i,
    {
        if chars_eq(&v[i], x) {
            assert(views(v@)[i as int] == x@);
            return true;
        }
        i += 1;
    }
    false
}

// ---------------------------------------------------------------------------------------------
// The final package list
// ---------------------------------------------------------------------------------------------

/// `x` is built: it was named, it is not itself an exclusion (`-name`), and `-x` was not named.
pub open spec fn kept_package(input: Seq<Seq<char>>, x: Seq<char>) -> bool {
    input.contains(x) && !has_prefix(x, "-"@) && !input.contains("-"@ + x)
}

/// `out` is the final list made from `input`: the kept names, each once, in sorted order.
pub open spec fn is_final_list(input: Seq<Seq<char>>, out: Seq<Seq<char>>) -> bool {
    &&& strictly_sorted(out)
    &&& forall|x: Seq<char>| out.contains(x) <==> kept_package(input, x)
}

/// Sorts the package names, drops repetitions, removes every name `x` for which `-x` was given,
/// and drops the `-x` entries themselves.
pub fn finalize_packages(pkgs: &Vec<String>) -> (r: Vec<String>)
    ensures
        is_final_list(string_views(pkgs@), string_views(r@)),
{
    let input = chars_of_all(pkgs);
    let ghost inp = views(input@);
    let mut sorted: Vec<Vec<char>> = Vec::new();
    let mut i: usize = 0;
    assert(views(sorted@) =~= Seq::<Seq<char>>::empty());
    while i < input.len()
        invariant
            inp == views(input@),
            i <= input@.len(),
            strictly_sorted(views(sorted@)),
            forall|y: Seq<char>| views(sorted@).contains(y) <==> inp.take(i as int).contains(y),
        decreases input@.len() - i,
    {
        let x = slice_chars(&input[i], 0, input[i].len());
        assert(x@ =~= inp[i as int]);
        let ghost before = views(sorted@);
        insert_sorted(&mut sorted, x);
        assert forall|y: Seq<char>| views(sorted@).contains(y) <==> inp.take(i + 1).contains(
            y,
        ) by {
            let t1 = inp.take(i + 1);
            let t0 = inp.take(i as int);
            assert(t1 =~= t0.push(inp[i as int]));
            if t1.contains(y) {
                let k = choose|k: int| 0 <= k < t1.len() && t1[k] == y;
                if k < i {
                    assert(t0[k] == y);
                }
            }
            if t0.contains(y) {
                let k = choose|k: int| 0 <= k < t0.len() && t0[k] == y;
                assert(t1[k] == y);
            }
            if y == inp[i as int] {
                assert(t1[i as int] == y);
            }
            assert(before.contains(y) <==> t0.contains(y));
        }
        i += 1;
    }
    assert(inp.take(input@.len() as int) =~= inp);
    let ghost all = views(sorted@);
    let minus = chars_of("-");
    let mut out: Vec<Vec<char>> = Vec::new();
    let mut j: usize = 0;
    while j < sorted.len()
        invariant
            all == views(sorted@),
            strictly_sorted(all),
            forall|y: Seq<char>| all.contains(y) <==> inp.contains(y),
            minus@ == "-"@,
            j <= sorted@.len(),
            out@.len() <= j,
            forall|a: int, b: int|
                0 <= a < b < out@.len() ==> lex_lt(#[trigger] views(out@)[a], #[trigger] views(out@)[b]),
            forall|a: int|
                #![trigger views(out@)[a]]
                0 <= a < out@.len() ==> exists|k: int|
                    0 <= k < j && all[k] == views(out@)[a],
            forall|y: Seq<char>|
                #![trigger views(out@).contains(y)]
                views(out@).contains(y) <==> (all.take(j as int).contains(y) && kept_package(
                    inp,
                    y,
                )),
        decreases sorted@.len() - j,
    {
        let y = &sorted[j];
        let excluded_form = concat(&minus, y);
        let keep = !starts_with(y, &minus) && !contains_name(&sorted, &excluded_form);
        let ghost o0 = views(out@);
        let ghost t0j = all.take(j as int);
        assert(forall|z: Seq<char>| #[trigger] o0.contains(z) <==> (t0j.contains(z) && kept_package(inp, z)));
        if keep {
            let c = slice_chars(y, 0, y.len());
            assert(c@ =~= all[j as int]);
            out.push(c);
        }
        proof {
            let o1 = views(out@);
            let yv = all[j as int];
            assert(all.contains(yv));
            assert(inp.contains(yv));
            assert(excluded_form@ == "-"@ + yv);
            assert(all.contains("-"@ + yv) <==> inp.contains("-"@ + yv));
            assert(keep == kept_package(inp, yv));
            assert(all.take(j + 1) =~= all.take(j as int).push(all[j as int]));
            if keep {
                assert(o1 =~= o0.push(all[j as int]));
                assert forall|a: int, b: int| 0 <= a < b < o1.len() implies lex_lt(
                    #[trigger] o1[a],
                    #[trigger] o1[b],
                ) by {
                    if b == o1.len() - 1 {
                        let k = choose|k: int| 0 <= k < j && all[k] == o0[a];
                        assert(lex_lt(all[k], all[j as int]));
                    } else {
                        assert(o1[a] == o0[a] && o1[b] == o0[b]);
                    }
                }
                assert forall|a: int|
                    #![trigger o1[a]]
                    0 <= a < o1.len() implies exists|k: int| 0 <= k < j + 1 && all[k] == o1[a] by {
                    if a == o1.len() - 1 {
                        assert(all[j as int] == o1[a]);
                    } else {
                        assert(o1[a] == o0[a]);
                        let k = choose|k: int| 0 <= k < j && all[k] == o0[a];
                        assert(all[k] == o1[a]);
                    }
                }
            } else {
                assert(o1 == o0);
                assert forall|a: int|
                    #![trigger o1[a]]
                    0 <= a < o1.len() implies exists|k: int| 0 <= k < j + 1 && all[k] == o1[a] by {
                    let k = choose|k: int| 0 <= k < j && all[k] == o0[a];
                    assert(all[k] == o1[a]);
                }
            }
            assert(keep ==> o1 =~= o0.push(yv));
            assert(!keep ==> o1 =~= o0);
            let t1 = all.take(j + 1);
            assert(t1 =~= t0j.push(yv));
            assert forall|z: Seq<char>| o1.contains(z) <==> (t1.contains(z) && kept_package(inp, z))
                by {
                assert(o0.contains(z) <==> (t0j.contains(z) && kept_package(inp, z)));
                if z == yv {
                    assert(t1[j as int] == z);
                    if keep {
                        assert(o1[o1.len() - 1] == z);
                    }
                } else {
                    if t1.contains(z) {
                        let k = choose|k: int| 0 <= k < t1.len() && t1[k] == z;
                        assert(t0j[k] == z);
                    }
                    if t0j.contains(z) {
                        let k = choose|k: int| 0 <= k < t0j.len() && t0j[k] == z;
                        assert(t1[k] == z);
                    }
                    if o1.contains(z) {
                        let k = choose|k: int| 0 <= k < o1.len() && o1[k] == z;
                        assert(o0[k] == z);
                    }
                    if o0.contains(z) {
                        let k = choose|k: int| 0 <= k < o0.len() && o0[k] == z;
                        assert(o1[k] == z);
                    }
                }
            }
        }
        j += 1;
    }
    assert(all.take(sorted@.len() as int) =~= all);
    let r = strings_of_all(out);
    proof {
        let o = string_views(r@);
        assert forall|x: Seq<char>| o.contains(x) <==> kept_package(string_views(pkgs@), x) by {
            if kept_package(inp, x) {
                assert(all.contains(x));
            }
        }
    }
    r
}

/// A package excluded with `-name` is never built, and neither is an exclusion itself.
pub proof fn law_excluded_never_built(input: Seq<Seq<char>>, out: Seq<Seq<char>>, x: Seq<char>)
    requires
        is_final_list(input, out),
        input.contains("-"@ + x),
    ensures
        !out.contains(x),
        !out.contains("-"@ + x),
{
    assert(has_prefix("-"@ + x, "-"@)) by {
        assert(("-"@ + x).subrange(0, "-"@.len() as int) =~= "-"@);
    }
}

/// Every named package that is not an exclusion and is not excluded is built.
pub proof fn law_named_package_built(input: Seq<Seq<char>>, out: Seq<Seq<char>>, x: Seq<char>)
    requires
        is_final_list(input, out),
        input.contains(x),
        !has_prefix(x, "-"@),
        !input.contains("-"@ + x),
    ensures
        out.contains(x),
{
}

/// The final list is determined by the names given: two final lists of the same input are equal.
pub proof fn law_final_list_unique(input: Seq<Seq<char>>, a: Seq<Seq<char>>, b: Seq<Seq<char>>)
    requires
        is_final_list(input, a),
        is_final_list(input, b),
    ensures
        a == b,
{
    lemma_sorted_unique(a, b);
}

/// The final list depends only on which names were given, not on their order or repetition.
pub proof fn law_final_list_ignores_order(
    input1: Seq<Seq<char>>,
    input2: Seq<Seq<char>>,
    out1: Seq<Seq<char>>,
    out2: Seq<Seq<char>>,
)
    requires
        forall|x: Seq<char>| input1.contains(x) <==> input2.contains(x),
        is_final_list(input1, out1),
        is_final_list(input2, out2),
    ensures
        out1 == out2,
{
    assert forall|x: Seq<char>| out1.contains(x) <==> out2.contains(x) by {
        assert(input1.contains("-"@ + x) <==> input2.contains("-"@ + x));
    }
    lemma_sorted_unique(out1, out2);
}

/// Making the final list of a final list changes nothing.
pub proof fn law_final_list_idempotent(input: Seq<Seq<char>>, out: Seq<Seq<char>>)
    requires
        is_final_list(input, out),
    ensures
        is_final_list(out, out),
{
    assert forall|x: Seq<char>| out.contains(x) <==> kept_package(out, x) by {
        if out.contains(x) {
            assert(kept_package(input, x));
            if out.contains("-"@ + x) {
                assert(kept_package(input, "-"@ + x));
                assert(has_prefix("-"@ + x, "-"@)) by {
                    assert(("-"@ + x).subrange(0, "-"@.len() as int) =~= "-"@);
                }
            }
        }
    }
}

// ---------------------------------------------------------------------------------------------
// Names the user asked for
// ---------------------------------------------------------------------------------------------

/// What one requested name stands for: itself where it mentions `override` (a Nix expression,
/// left alone), else its brace expansion.
pub open spec fn requested_expansion(x: Seq<char>) -> Seq<Seq<char>> {
    if contains(x, "override"@) {
        seq![x]
    } else {
        brace_expansion(x)
    }
}

/// Expanding the requested name `x` finishes.
pub open spec fn request_returns(x: Seq<char>) -> bool {
    contains(x, "override"@) || brace_expand_returns(x)
}

/// The expansions of all requested names, in order.
pub open spec fn requested_packages(xs: Seq<Seq<char>>) -> Seq<Seq<char>>
    decreases xs.len(),
{
    if xs.len() == 0 {
        Seq::empty()
    } else {
        requested_packages(xs.drop_last()) + requested_expansion(xs.last())
    }
}

/// Expands the names the user asked for: names that mention `override` stay as they are, the
/// others go through brace expansion. `None` where an expansion would never finish.
pub fn expand_requested(pkgs: &Vec<String>) -> (r: Option<Vec<String>>)
    ensures
        r is Some <==> forall|i: int| 0 <= i < pkgs@.len() ==> request_returns(#[trigger] pkgs@[i]@),
        r matches Some(v) ==> string_views(v@) == requested_packages(string_views(pkgs@)),
{
    let mut i: usize = 0;
    while i < pkgs.len()
        invariant
            i <= pkgs@.len(),
            forall|k: int| 0 <= k < i ==> request_returns(#[trigger] pkgs@[k]@),
        decreases pkgs@.len() - i,
    {
        let x = chars_of(pkgs[i].as_str());
        if !contains_str(&x, "override") && !brace_expand_returns_exec(&x) {
            return None;
        }
        i += 1;
    }
    let ghost xs = string_views(pkgs@);
    let mut out: Vec<String> = Vec::new();
    let mut k: usize = 0;
    assert(xs.take(0) =~= Seq::<Seq<char>>::empty());
    assert(string_views(out@) =~= Seq::<Seq<char>>::empty());
    while k < pkgs.len()
        invariant
            xs == string_views(pkgs@),
            k <= pkgs@.len(),
            forall|m: int| 0 <= m < pkgs@.len() ==> request_returns(#[trigger] pkgs@[m]@),
            string_views(out@) == requested_packages(xs.take(k as int)),
        decreases pkgs@.len() - k,
    {
        let x = chars_of(pkgs[k].as_str());
        assert(xs[k as int] == pkgs@[k as int]@);
        assert(xs.take(k + 1).drop_last() =~= xs.take(k as int));
        let ghost before = string_views(out@);
        if contains_str(&x, "override") {
            let s = string_from_chars(x);
            out.push(s);
            assert(string_views(out@) =~= before + seq![xs[k as int]]);
        } else {
            let mut e = brace_expand_call(pkgs[k].as_str());
            let ghost ev = string_views(e@);
            assert(ev == e@.map_values(|s: String| s@));
            out.append(&mut e);
            assert(string_views(out@) =~= before + ev);
        }
        k += 1;
    }
    assert(xs.take(pkgs@.len() as int) =~= xs);
    Some(out)
}

// ---------------------------------------------------------------------------------------------
// Commits of the pull request
// ---------------------------------------------------------------------------------------------

/// The commit lines of `git log --oneline` output, oldest first: the non-empty lines, reversed.
pub open spec fn commit_lines(out: Seq<char>) -> Seq<Seq<char>> {
    non_empty(split_char(out, '\n')).reverse()
}

/// Splits `git log --oneline` output into its commit lines, oldest first.
pub fn commit_lines_of(out: &str) -> (r: Vec<String>)
    ensures
        string_views(r@) == commit_lines(out@),
{
    let o = chars_of(out);
    let parts = split_char_vec(&o, '\n');
    let lines = non_empty_vec(&parts);
    let ghost l = views(lines@);
    let mut rev: Vec<Vec<char>> = Vec::new();
    let mut i = lines.len();
    while i > 0
        invariant
            l == views(lines@),
            i <= lines@.len(),
            rev@.len() == lines@.len() - i,
            forall|k: int| 0 <= k < rev@.len() ==> #[trigger] rev@[k]@ == l[l.len() - 1 - k],
        decreases i,
    {
        i -= 1;
        let c = slice_chars(&lines[i], 0, lines[i].len());
        assert(c@ =~= l[i as int]);
        rev.push(c);
    }
    assert(views(rev@) =~= l.reverse());
    strings_of_all(rev)
}

/// The commit hash of a commit line: the text before its first space.
pub open spec fn commit_id_of(line: Seq<char>) -> Option<Seq<char>> {
    match split_once(line, " "@) {
        Some((id, _)) => Some(id),
        None => None,
    }
}

/// The commit hash of a commit line; `None` where the line holds no space.
pub fn commit_id(line: &str) -> (r: Option<String>)
    ensures
        opt_view(r) == commit_id_of(line@),
{
    let l = chars_of(line);
    match split_once_str(&l, " ") {
        Some((id, _)) => Some(string_from_chars(id)),
        None => None,
    }
}

/// The package named by a commit subject of the form `pkg: message`, after the hash.
pub open spec fn subject_package(line: Seq<char>) -> Option<Seq<char>> {
    match split_once(line, " "@) {
        Some((_, subject)) => match split_once(subject, ": "@) {
            Some((pkg, _)) => Some(pkg),
            None => None,
        },
        None => None,
    }
}

/// Subjects that name no single package: reverts, merges, tree-wide and NixOS changes, library
/// and maintainer list changes, exclusions and anything with a space.
pub open spec fn is_skipped_subject(pkg: Seq<char>) -> bool {
    ||| has_prefix(pkg, "Revert"@)
    ||| has_prefix(pkg, "Merge"@)
    ||| has_prefix(pkg, "treewide"@)
    ||| has_prefix(pkg, "nixos"@)
    ||| has_prefix(pkg, "lib."@)
    ||| has_prefix(pkg, "-"@)
    ||| contains(pkg, " "@)
    ||| has_prefix(pkg, "maintainers"@)
}

/// The packages one commit line contributes: none, its subject's package, or that package's
/// brace expansion where it holds a `{`.
pub open spec fn line_packages(line: Seq<char>) -> Seq<Seq<char>> {
    if line.len() == 0 {
        Seq::empty()
    } else {
        match subject_package(line) {
            Some(pkg) => if is_skipped_subject(pkg) {
                Seq::empty()
            } else if contains(pkg, "{"@) {
                brace_expansion(pkg)
            } else {
                seq![pkg]
            },
            None => Seq::empty(),
        }
    }
}

/// Taking the packages of a commit line finishes.
pub open spec fn line_returns(line: Seq<char>) -> bool {
    match subject_package(line) {
        Some(pkg) => line.len() == 0 || is_skipped_subject(pkg) || !contains(pkg, "{"@)
            || brace_expand_returns(pkg),
        None => true,
    }
}

/// The packages of all commit lines, in order.
pub open spec fn commit_packages(lines: Seq<Seq<char>>) -> Seq<Seq<char>>
    decreases lines.len(),
{
    if lines.len() == 0 {
        Seq::empty()
    } else {
        commit_packages(lines.drop_last()) + line_packages(lines.last())
    }
}

/// The package of one commit line, if it names one that is not skipped.
fn subject_package_exec(line: &Vec<char>) -> (r: Option<Vec<char>>)
    ensures
        match r {
            Some(p) => line@.len() > 0 && subject_package(line@) == Some(p@) && !is_skipped_subject(
                p@,
            ),
            None => line@.len() == 0 || match subject_package(line@) {
                Some(p) => is_skipped_subject(p),
                None => true,
            },
        },
{
    if line.len() == 0 {
        return None;
    }
    let (_, subject) = match split_once_str(line, " ") {
        Some(parts) => parts,
        None => return None,
    };
    let (pkg, _) = match split_once_str(&subject, ": ") {
        Some(parts) => parts,
        None => return None,
    };
    if starts_with_str(&pkg, "Revert") || starts_with_str(&pkg, "Merge") || starts_with_str(
        &pkg,
        "treewide",
    ) || starts_with_str(&pkg, "nixos") || starts_with_str(&pkg, "lib.") || starts_with_str(
        &pkg,
        "-",
    ) || contains_str(&pkg, " ") || starts_with_str(&pkg, "maintainers") {
        return None;
    }
    Some(pkg)
}

/// The packages named by the subjects of the commit lines (`pkg: message`), skipping reverts,
/// merges, tree-wide, NixOS, library and maintainer changes, exclusions and subjects with spaces;
/// names with a `{` are brace-expanded. `None` where an expansion would never finish.
pub fn packages_from_commits(lines: &Vec<String>) -> (r: Option<Vec<String>>)
    ensures
        r is Some <==> forall|i: int| 0 <= i < lines@.len() ==> line_returns(#[trigger] lines@[i]@),
        r matches Some(v) ==> string_views(v@) == commit_packages(string_views(lines@)),
{
    let ghost ls = string_views(lines@);
    let mut out: Vec<String> = Vec::new();
    let mut k: usize = 0;
    assert(ls.take(0) =~= Seq::<Seq<char>>::empty());
    assert(string_views(out@) =~= Seq::<Seq<char>>::empty());
    while k < lines.len()
        invariant
            ls == string_views(lines@),
            k <= lines@.len(),
            forall|m: int| 0 <= m < k ==> line_returns(#[trigger] lines@[m]@),
            string_views(out@) == commit_packages(ls.take(k as int)),
        decreases lines@.len() - k,
    {
        let line = chars_of(lines[k].as_str());
        assert(ls[k as int] == lines@[k as int]@);
        assert(ls.take(k + 1).drop_last() =~= ls.take(k as int));
        let ghost before = string_views(out@);
        match subject_package_exec(&line) {
            Some(pkg) => {
                if contains_str(&pkg, "{") {
                    if !brace_expand_returns_exec(&pkg) {
                        return None;
                    }
                    let p = string_from_chars(pkg);
                    let mut e = brace_expand_call(p.as_str());
                    let ghost ev = string_views(e@);
                    assert(ev == e@.map_values(|s: String| s@));
                    out.append(&mut e);
                    assert(string_views(out@) =~= before + ev);
                } else {
                    let p = string_from_chars(pkg);
                    out.push(p);
                    assert(string_views(out@) =~= before + seq![p@]);
                }
            },
            None => {
                assert(string_views(out@) =~= before + Seq::<Seq<char>>::empty());
            },
        }
        k += 1;
    }
    assert(ls.take(lines@.len() as int) =~= ls);
    Some(out)
}

/// The packages a pull request build covers: the (expanded) requested names and the names from
/// the commit subjects, made into the final list. `None` where expanding a commit subject would
/// never finish.
pub fn packages_to_build(requested: &Vec<String>, commit_lines: &Vec<String>) -> (r: Option<
    Vec<String>,
>)
    ensures
        r is Some <==> forall|i: int|
            0 <= i < commit_lines@.len() ==> line_returns(#[trigger] commit_lines@[i]@),
        r matches Some(v) ==> is_final_list(
            string_views(requested@) + commit_packages(string_views(commit_lines@)),
            string_views(v@),
        ),
{
    let from_commits = match packages_from_commits(commit_lines) {
        Some(v) => v,
        None => return None,
    };
    let mut all = chars_of_all(requested);
    let more = chars_of_all(&from_commits);
    let ghost a0 = views(all@);
    let mut k: usize = 0;
    while k < more.len()
        invariant
            k <= more@.len(),
            views(all@) == a0 + views(more@).take(k as int),
        decreases more@.len() - k,
    {
        let c = slice_chars(&more[k], 0, more[k].len());
        assert(c@ =~= more@[k as int]@);
        let ghost b0 = views(all@);
        all.push(c);
        assert(views(all@) =~= b0.push(views(more@)[k as int]));
        assert(views(more@).take(k + 1) =~= views(more@).take(k as int).push(views(more@)[k as int]));
        k += 1;
    }
    assert(views(more@).take(more@.len() as int) =~= views(more@));
    let all_strings = strings_of_all(all);
    Some(finalize_packages(&all_strings))
}

// ---------------------------------------------------------------------------------------------
// Laws on commit subjects and requested names
// ---------------------------------------------------------------------------------------------

/// A commit line `<hash> <pkg>: <message>` names the package `pkg` and nothing else, when `pkg`
/// is a plain name: it holds no space and no `{`, does not begin with `-`, and is not a revert,
/// merge, tree-wide, NixOS, `lib.` or maintainer-list change. Dashes inside the name (as in
/// `gnome-shell`) do not matter.
pub proof fn law_subject_names_package(hash: Seq<char>, pkg: Seq<char>, msg: Seq<char>)
    requires
        forall|i: int| 0 <= i < hash.len() ==> hash[i] != ' ',
        forall|i: int| 0 <= i < pkg.len() ==> pkg[i] != ' ' && pkg[i] != '{',
        pkg.len() == 0 || pkg[0] != '-',
        !has_prefix(pkg, "Revert"@),
        !has_prefix(pkg, "Merge"@),
        !has_prefix(pkg, "treewide"@),
        !has_prefix(pkg, "nixos"@),
        !has_prefix(pkg, "lib."@),
        !has_prefix(pkg, "maintainers"@),
    ensures
        commit_packages(seq![hash + " "@ + pkg + ": "@ + msg]) == seq![pkg],
{
    reveal_strlit(" ");
    reveal_strlit(": ");
    reveal_strlit("-");
    reveal_strlit("{");
    let subject = pkg + ": "@ + msg;
    let line = hash + " "@ + subject;
    assert(line =~= hash + " "@ + pkg + ": "@ + msg);
    assert forall|j: int| 0 <= j < hash.len() implies !occurs_at(line, " "@, j) by {
        if occurs_at(line, " "@, j) {
            assert(line.subrange(j, j + 1)[0] == line[j]);
            assert(line[j] == hash[j]);
        }
    }
    lemma_split_once_at(hash, " "@, subject);
    assert forall|j: int| 0 <= j < pkg.len() implies !occurs_at(subject, ": "@, j) by {
        if occurs_at(subject, ": "@, j) {
            assert(subject.subrange(j, j + 2)[1] == subject[j + 1]);
            if j + 1 < pkg.len() {
                assert(subject[j + 1] == pkg[j + 1]);
            } else {
                assert(subject[j + 1] == ':');
            }
        }
    }
    lemma_split_once_at(pkg, ": "@, msg);
    assert(subject_package(line) == Some(pkg));
    assert(" "@ =~= seq![' ']);
    assert("{"@ =~= seq!['{']);
    lemma_no_char_no_match(pkg, ' ');
    lemma_no_char_no_match(pkg, '{');
    assert(!has_prefix(pkg, "-"@)) by {
        if has_prefix(pkg, "-"@) {
            assert(pkg.subrange(0, 1)[0] == pkg[0]);
        }
    }
    assert(!is_skipped_subject(pkg));
    assert(line.len() > 0);
    assert(line_packages(line) == seq![pkg]);
    let ls = seq![line];
    assert(ls.drop_last() =~= Seq::<Seq<char>>::empty());
    assert(commit_packages(ls) =~= commit_packages(ls.drop_last()) + line_packages(line));
}

/// A commit line `<hash> <pkg>: <message>` whose `pkg` is a revert, merge, tree-wide, NixOS,
/// `lib.` or maintainer-list change, an exclusion (`-...`), or holds a space, names no package.
pub proof fn law_skipped_subjects(hash: Seq<char>, pkg: Seq<char>, msg: Seq<char>)
    requires
        forall|i: int| 0 <= i < hash.len() ==> hash[i] != ' ',
        forall|i: int| 0 <= i < pkg.len() ==> pkg[i] != ':',
        ({
            ||| has_prefix(pkg, "Revert"@)
            ||| has_prefix(pkg, "Merge"@)
            ||| has_prefix(pkg, "treewide"@)
            ||| has_prefix(pkg, "nixos"@)
            ||| has_prefix(pkg, "lib."@)
            ||| has_prefix(pkg, "maintainers"@)
            ||| (pkg.len() > 0 && pkg[0] == '-')
            ||| exists|i: int| 0 <= i < pkg.len() && pkg[i] == ' '
        }),
    ensures
        commit_packages(seq![hash + " "@ + pkg + ": "@ + msg]) == Seq::<Seq<char>>::empty(),
{
    reveal_strlit(" ");
    reveal_strlit(": ");
    reveal_strlit("-");
    let subject = pkg + ": "@ + msg;
    let line = hash + " "@ + subject;
    assert(line =~= hash + " "@ + pkg + ": "@ + msg);
    assert forall|j: int| 0 <= j < hash.len() implies !occurs_at(line, " "@, j) by {
        if occurs_at(line, " "@, j) {
            assert(line.subrange(j, j + 1)[0] == line[j]);
            assert(line[j] == hash[j]);
        }
    }
    lemma_split_once_at(hash, " "@, subject);
    assert forall|j: int| 0 <= j < pkg.len() implies !occurs_at(subject, ": "@, j) by {
        if occurs_at(subject, ": "@, j) {
            assert(subject.subrange(j, j + 2)[0] == subject[j]);
            assert(subject[j] == pkg[j]);
        }
    }
    lemma_split_once_at(pkg, ": "@, msg);
    assert(subject_package(line) == Some(pkg));
    if pkg.len() > 0 && pkg[0] == '-' {
        assert(pkg.subrange(0, 1) =~= "-"@);
    }
    if exists|i: int| 0 <= i < pkg.len() && pkg[i] == ' ' {
        let i = choose|i: int| 0 <= i < pkg.len() && pkg[i] == ' ';
        lemma_pat_pos(pkg, " "@);
        assert(pkg.subrange(i, i + 1) =~= " "@);
        assert(occurs_at(pkg, " "@, i));
    }
    assert(is_skipped_subject(pkg));
    let ls = seq![line];
    assert(ls.drop_last() =~= Seq::<Seq<char>>::empty());
    assert(commit_packages(ls) =~= commit_packages(ls.drop_last()) + line_packages(line));
}

/// `x` has `override` in it somewhere.
pub open spec fn mentions_override(x: Seq<char>) -> bool {
    exists|i: int| 0 <= i && i + 8 <= x.len() && #[trigger] x.subrange(i, i + 8) == "override"@
}

/// A requested name without `override` in it stands for its brace expansion (dots, as in
/// `python3Packages.{foo,bar}`, do not matter); a name with `override` in it (a Nix expression)
/// stands for itself. The names of a request are expanded one after another, in order.
pub proof fn law_requested_names_expand(x: Seq<char>, xs: Seq<Seq<char>>)
    ensures
        !mentions_override(x) ==> requested_packages(seq![x]) == brace_expansion(x),
        mentions_override(x) ==> requested_packages(seq![x]) == seq![x],
        requested_packages(xs.push(x)) == requested_packages(xs) + requested_packages(seq![x]),
{
    reveal_strlit("override");
    assert(seq![x].drop_last() =~= Seq::<Seq<char>>::empty());
    assert(xs.push(x).drop_last() =~= xs);
    assert(requested_packages(Seq::<Seq<char>>::empty()) == Seq::<Seq<char>>::empty());
    assert(requested_packages(seq![x]) =~= requested_expansion(x));
    lemma_pat_pos(x, "override"@);
    if mentions_override(x) {
        let i = choose|i: int| 0 <= i && i + 8 <= x.len() && #[trigger] x.subrange(i, i + 8) == "override"@;
        assert(occurs_at(x, "override"@, i));
    } else {
        if let Some(i) = pat_pos(x, "override"@) {
            assert(x.subrange(i, i + 8) == "override"@);
        }
    }
}

} // verus!
