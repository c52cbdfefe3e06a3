//! Preparing build logs for the paste service: which failures to pick out of a log, how to
//! title and annotate them, how much of the log to upload, and the link the service returns.
use vstd::prelude::*;

use crate::text::{
    before_first, before_first_str, byte_len, byte_len_exec, byte_slice, byte_slice_exec,
    ceil_chars, ceil_chars_exec, chars_of, contains, contains_str, has_prefix, is_blank,
    is_blank_vec, join, join_vec, lines, lines_vec, non_empty, non_empty_vec, opt_view, push_all,
    push_str, slice_chars, split_char, split_char_vec, split_once, split_once_str,
    starts_with_str, string_from_chars, string_views, strings_of_all, strip_prefix,
    strip_prefix_str, strip_suffix, strip_suffix_str, views,
};
use crate::trusted::{json_string_at, json_string_at_call, lookup_view};

verus! {

// ---------------------------------------------------------------------------------------------
// Titles and texts
// ---------------------------------------------------------------------------------------------

/// The title of a paste: where the log reports a full disk, the title says so.
pub open spec fn paste_title(title: Seq<char>, text: Seq<char>) -> Seq<char> {
    if contains(text, "No space left on device"@) {
        title + " - likely out of /tmp space"@
    } else {
        title
    }
}

/// The title of a paste of `text`.
pub fn paste_title_of(title: &str, text: &str) -> (r: String)
    ensures
        r@ == paste_title(title@, text@),
{
    let t = chars_of(text);
    let mut v = chars_of(title);
    if contains_str(&t, "No space left on device") {
        push_str(&mut v, " - likely out of /tmp space");
    }
    string_from_chars(v)
}

/// The non-empty lines of a log (`split('\n')` without empty pieces).
pub open spec fn log_lines(text: Seq<char>) -> Seq<Seq<char>> {
    non_empty(split_char(text, '\n'))
}

/// The last 5,000,000 bytes of the log, starting at the first character boundary at or after
/// that point (the paste service's size limit); shorter logs whole.
pub open spec fn truncated_log(text: Seq<char>) -> Seq<char> {
    if byte_len(text) >= 5_000_000 {
        text.skip(ceil_chars(text, byte_len(text) - 5_000_000))
    } else {
        text
    }
}

/// The text uploaded: the failures picked out of the log, one per line, where there are any;
/// else the (truncated) log.
pub open spec fn paste_text(failures: Seq<Seq<char>>, text: Seq<char>) -> Seq<char> {
    if failures.len() > 0 {
        join(failures, "\n"@)
    } else {
        truncated_log(text)
    }
}

/// What the paste service is sent.
#[derive(Debug, PartialEq, Eq)]
pub struct PasteRequest {
    pub title: String,
    pub extension: String,
    pub expires: u64,
    pub text: String,
}

/// The request to upload `text` (or the failures picked from it) under `title`: kept for a
/// week, shown as a log. With `mark_out_of_space`, a full disk is noted in the title.
pub fn paste_request(title: &str, text: &str, failures: &Vec<String>, mark_out_of_space: bool) -> (r:
    PasteRequest)
    ensures
        r.title@ == (if mark_out_of_space {
            paste_title(title@, text@)
        } else {
            title@
        }),
        r.extension@ == "log"@,
        r.expires == 7 * 24 * 60 * 60,
        r.text@ == paste_text(string_views(failures@), text@),
{
    let title = if mark_out_of_space {
        paste_title_of(title, text)
    } else {
        string_from_chars(chars_of(title))
    };
    let t = chars_of(text);
    let body = if failures.len() > 0 {
        let f = crate::text::chars_of_all(failures);
        let nl = chars_of("\n");
        let j = join_vec(&f, &nl);
        j
    } else {
        let n = byte_len_exec(&t);
        if n >= 5_000_000 {
            let k = ceil_chars_exec(&t, n - 5_000_000);
            let r = slice_chars(&t, k, t.len());
            assert(r@ =~= t@.skip(k as int));
            r
        } else {
            t
        }
    };
    PasteRequest {
        title,
        extension: string_from_chars(chars_of("log")),
        expires: 7 * 24 * 60 * 60,
        text: string_from_chars(body),
    }
}

/// The shortest prefix with at least `n` bytes has at least `n` bytes.
proof fn lemma_ceil_chars(s: Seq<char>, n: int)
    requires
        n <= byte_len(s),
    ensures
        0 <= ceil_chars(s, n) <= s.len(),
        byte_len(s.take(ceil_chars(s, n))) >= n,
    decreases s.len(),
{
    if n <= 0 || s.len() == 0 {
        assert(s.take(0) =~= Seq::<char>::empty());
        assert(vstd::utf8::encode_utf8(Seq::<char>::empty()) =~= Seq::<u8>::empty());
    } else {
        let w = crate::text::utf8_width(s[0]);
        assert(vstd::utf8::encode_utf8(s) =~= vstd::utf8::encode_scalar(s[0] as u32)
            + vstd::utf8::encode_utf8(s.drop_first()));
        lemma_ceil_chars(s.drop_first(), n - w);
        let c = ceil_chars(s.drop_first(), n - w);
        let t = s.take(c + 1);
        assert(t.drop_first() =~= s.drop_first().take(c));
        assert(vstd::utf8::encode_utf8(t) =~= vstd::utf8::encode_scalar(t[0] as u32)
            + vstd::utf8::encode_utf8(t.drop_first()));
    }
}

/// The uploaded log is the end of the log and takes at most 5,000,000 bytes; a shorter log is
/// uploaded whole.
pub proof fn law_truncated_log_fits(text: Seq<char>)
    ensures
        byte_len(truncated_log(text)) <= 5_000_000,
        exists|k: int| 0 <= k <= text.len() && truncated_log(text) == text.skip(k),
        byte_len(text) < 5_000_000 ==> truncated_log(text) == text,
{
    if byte_len(text) >= 5_000_000 {
        let n = byte_len(text) - 5_000_000;
        lemma_ceil_chars(text, n);
        let k = ceil_chars(text, n);
        crate::text::lemma_encode_utf8_append(text.take(k), text.skip(k));
        assert(text.take(k) + text.skip(k) =~= text);
    } else {
        assert(text.skip(0) =~= text);
    }
}

// ---------------------------------------------------------------------------------------------
// Failures named by `error: builder for '...' failed` lines
// ---------------------------------------------------------------------------------------------

/// The `nix log` command line for a derivation, as it is written into a paste.
pub open spec fn nix_log_line(drv: Seq<char>) -> Seq<char> {
    "'nix log "@ + drv + "'."@
}

/// The entry for a line `error: builder for '<drv>' failed with exit code ...`.
pub open spec fn exit_code_entry(line: Seq<char>) -> Option<Seq<char>> {
    match strip_prefix(line, "error: builder for '"@) {
        Some(rest) => Some(nix_log_line(before_first(rest, "' failed with exit code"@))),
        None => None,
    }
}

/// The derivation of a line `error: builder for '<drv>' failed to produce ...`, or `???`.
pub open spec fn missing_output_drv(line: Seq<char>) -> Seq<char> {
    let rest = match strip_prefix(line, "error: builder for '"@) {
        Some(r) => r,
        None => "???"@,
    };
    match split_once(rest, "' failed to produce"@) {
        Some((drv, _)) => drv,
        None => "???"@,
    }
}

/// The line is a builder failure that produced no output path.
pub open spec fn is_missing_output(line: Seq<char>) -> bool {
    has_prefix(line, "error: builder for "@) && contains(
        line,
        "failed to produce output path for output"@,
    )
}

/// The exit-code entries of the lines, in order.
pub open spec fn exit_code_entries(ls: Seq<Seq<char>>) -> Seq<Seq<char>>
    decreases ls.len(),
{
    if ls.len() == 0 {
        Seq::empty()
    } else {
        match exit_code_entry(ls.last()) {
            Some(e) => exit_code_entries(ls.drop_last()).push(e),
            None => exit_code_entries(ls.drop_last()),
        }
    }
}

/// The entries for lines with missing outputs: the line itself, its `nix log` line, and an empty
/// line.
pub open spec fn missing_output_entries(ls: Seq<Seq<char>>) -> Seq<Seq<char>>
    decreases ls.len(),
{
    if ls.len() == 0 {
        Seq::empty()
    } else if is_missing_output(ls.last()) {
        missing_output_entries(ls.drop_last()) + seq![
            ls.last(),
            nix_log_line(missing_output_drv(ls.last())),
            "\n"@,
        ]
    } else {
        missing_output_entries(ls.drop_last())
    }
}

/// The failures named in a build log: one `nix log` line per builder that failed with an exit
/// code, then each builder line that produced no output with its `nix log` line.
pub open spec fn builder_failures(text: Seq<char>) -> Seq<Seq<char>> {
    exit_code_entries(log_lines(text)) + missing_output_entries(log_lines(text))
}

/// Picks out the failures named by `error: builder for` lines of a build log.
pub fn builder_failures_of(text: &str) -> (r: Vec<String>)
    ensures
        string_views(r@) == builder_failures(text@),
{
    let t = chars_of(text);
    let pieces = split_char_vec(&t, '\n');
    let ls = non_empty_vec(&pieces);
    let ghost lv = views(ls@);
    let mut first: Vec<Vec<char>> = Vec::new();
    let mut second: Vec<Vec<char>> = Vec::new();
    let mut i: usize = 0;
    assert(lv.take(0) =~= Seq::<Seq<char>>::empty());
    assert(views(first@) =~= Seq::<Seq<char>>::empty());
    assert(views(second@) =~= Seq::<Seq<char>>::empty());
    while i < ls.len()
        invariant
            lv == views(ls@),
            i <= ls@.len(),
            views(first@) == exit_code_entries(lv.take(i as int)),
            views(second@) == missing_output_entries(lv.take(i as int)),
        decreases ls@.len() - i,
    {
        let ghost tk = lv.take(i + 1);
        assert(tk.drop_last() =~= lv.take(i as int));
        assert(tk.last() == ls@[i as int]@);
        let line = &ls[i];
        match strip_prefix_str(line, "error: builder for '") {
            Some(rest) => {
                let drv = before_first_str(&rest, "' failed with exit code");
                let mut e = chars_of("'nix log ");
                push_all(&mut e, &drv);
                push_str(&mut e, "'.");
                let ghost f0 = views(first@);
                let ghost ev = e@;
                first.push(e);
                assert(views(first@) =~= f0.push(ev));
            },
            None => {},
        }
        if starts_with_str(line, "error: builder for ") && contains_str(
            line,
            "failed to produce output path for output",
        ) {
            let rest = match strip_prefix_str(line, "error: builder for '") {
                Some(r) => r,
                None => chars_of("???"),
            };
            let drv = match split_once_str(&rest, "' failed to produce") {
                Some((d, _)) => d,
                None => chars_of("???"),
            };
            let mut e = chars_of("'nix log ");
            push_all(&mut e, &drv);
            push_str(&mut e, "'.");
            let copy = slice_chars(line, 0, line.len());
            assert(copy@ =~= line@);
            let ghost s0 = views(second@);
            let ghost ev = e@;
            second.push(copy);
            second.push(e);
            second.push(chars_of("\n"));
            assert(views(second@) =~= s0 + seq![line@, ev, "\n"@]);
        }
        i += 1;
    }
    assert(lv.take(ls@.len() as int) =~= lv);
    let ghost f = views(first@);
    let mut all = first;
    let mut k: usize = 0;
    while k < second.len()
        invariant
            k <= second@.len(),
            views(all@) == f + views(second@).take(k as int),
        decreases second@.len() - k,
    {
        let c = slice_chars(&second[k], 0, second[k].len());
        assert(c@ =~= second@[k as int]@);
        let ghost a0 = views(all@);
        all.push(c);
        assert(views(all@) =~= a0.push(views(second@)[k as int]));
        assert(views(second@).take(k + 1) =~= views(second@).take(k as int).push(
            views(second@)[k as int],
        ));
        k += 1;
    }
    assert(views(second@).take(second@.len() as int) =~= views(second@));
    strings_of_all(all)
}

// ---------------------------------------------------------------------------------------------
// Failures named by the `For full logs, run` hints of a log
// ---------------------------------------------------------------------------------------------

/// The hint Nix prints below the tail of a failed build's log.
pub open spec fn full_log_hint() -> Seq<char> {
    "For full logs, run"@
}

/// A line of a failure excerpt without its indentation marker, or `None` for lines without one.
pub open spec fn excerpt_line(x: Seq<char>) -> Option<Seq<char>> {
    match strip_prefix(x, "       > "@) {
        Some(r) => Some(r),
        None => match strip_prefix(x, "      > "@) {
            Some(r) => Some(r),
            None => match strip_prefix(x, "       For full logs, run "@) {
                Some(r) => Some(r),
                None => strip_prefix(x, "      For full logs, run "@),
            },
        },
    }
}

/// The excerpt lines of a group of log lines, followed by an empty line.
pub open spec fn excerpt(group: Seq<Seq<char>>) -> Seq<Seq<char>>
    decreases group.len(),
{
    if group.len() == 0 {
        seq!["\n"@]
    } else {
        let init = excerpt(group.drop_last());
        match excerpt_line(group.last()) {
            Some(r) => init.drop_last().push(r).push("\n"@),
            None => init,
        }
    }
}

/// The excerpts of every run of 26 consecutive lines whose last line holds the hint, in order
/// of their ends, up to (not including) the run ending at line `end`.
pub open spec fn window_excerpts(ls: Seq<Seq<char>>, end: int) -> Seq<Seq<char>>
    decreases end,
{
    if end < 26 {
        Seq::empty()
    } else {
        let before = window_excerpts(ls, end - 1);
        if contains(ls[end - 1], full_log_hint()) {
            before + excerpt(ls.subrange(end - 26, end))
        } else {
            before
        }
    }
}

/// The failures of a log found by the hints: every window of 26 non-empty lines that ends at a
/// hint, and for logs of fewer than 26 lines the whole log where its last line holds the hint;
/// `None` for a log without a non-empty line (where taking its last line panics).
pub open spec fn hint_failures(text: Seq<char>) -> Option<Seq<Seq<char>>> {
    let ls = log_lines(text);
    if ls.len() < 26 {
        if ls.len() == 0 {
            None
        } else if contains(ls.last(), full_log_hint()) {
            Some(excerpt(ls))
        } else {
            Some(Seq::empty())
        }
    } else {
        Some(window_excerpts(ls, ls.len() as int))
    }
}

/// The excerpt of the lines `ls[start..end]`.
fn excerpt_of(ls: &Vec<Vec<char>>, start: usize, end: usize) -> (r: Vec<Vec<char>>)
    requires
        start <= end <= ls@.len(),
    ensures
        views(r@) == excerpt(views(ls@).subrange(start as int, end as int)),
{
    let ghost g = views(ls@).subrange(start as int, end as int);
    let mut out: Vec<Vec<char>> = Vec::new();
    let mut i: usize = 0;
    assert(g.take(0) =~= Seq::<Seq<char>>::empty());
    while i < end - start
        invariant
            start <= end <= ls@.len(),
            g == views(ls@).subrange(start as int, end as int),
            i <= end - start,
            views(out@) == excerpt(g.take(i as int)).drop_last(),
        decreases end - start - i,
    {
        let ghost tk = g.take(i + 1);
        assert(tk.drop_last() =~= g.take(i as int));
        assert(tk.last() == ls@[start + i]@);
        proof {
            lemma_excerpt_ends_in_blank(g.take(i as int));
        }
        let x = &ls[start + i];
        let found = match strip_prefix_str(x, "       > ") {
            Some(r) => Some(r),
            None => match strip_prefix_str(x, "      > ") {
                Some(r) => Some(r),
                None => match strip_prefix_str(x, "       For full logs, run ") {
                    Some(r) => Some(r),
                    None => strip_prefix_str(x, "      For full logs, run "),
                },
            },
        };
        match found {
            Some(r) => {
                let ghost o0 = views(out@);
                let ghost rv = r@;
                out.push(r);
                assert(views(out@) =~= o0.push(rv));
                assert(excerpt(tk).drop_last() =~= excerpt(g.take(i as int)).drop_last().push(rv));
            },
            None => {},
        }
        i += 1;
    }
    assert(g.take((end - start) as int) =~= g);
    proof {
        lemma_excerpt_ends_in_blank(g);
    }
    let ghost o0 = views(out@);
    out.push(chars_of("\n"));
    assert(views(out@) =~= o0.push("\n"@));
    assert(views(out@) =~= excerpt(g));
    out
}

/// An excerpt ends with its empty line.
proof fn lemma_excerpt_ends_in_blank(group: Seq<Seq<char>>)
    ensures
        excerpt(group).len() >= 1,
        excerpt(group).last() == "\n"@,
        excerpt(group) == excerpt(group).drop_last().push("\n"@),
    decreases group.len(),
{
    if group.len() > 0 {
        lemma_excerpt_ends_in_blank(group.drop_last());
    }
    assert(excerpt(group) =~= excerpt(group).drop_last().push("\n"@));
}

/// Picks out the failure excerpts of a log by its `For full logs, run` hints; `None` for a log
/// without a non-empty line.
pub fn hint_failures_of(text: &str) -> (r: Option<Vec<String>>)
    ensures
        match r {
            Some(v) => hint_failures(text@) == Some(string_views(v@)),
            None => hint_failures(text@) is None,
        },
{
    let t = chars_of(text);
    let pieces = split_char_vec(&t, '\n');
    let ls = non_empty_vec(&pieces);
    let ghost lv = views(ls@);
    let n = ls.len();
    if n < 26 {
        if n == 0 {
            return None;
        }
        if contains_str(&ls[n - 1], "For full logs, run") {
            let e = excerpt_of(&ls, 0, n);
            assert(lv.subrange(0, n as int) =~= lv);
            return Some(strings_of_all(e));
        }
        let v: Vec<Vec<char>> = Vec::new();
        assert(views(v@) =~= Seq::<Seq<char>>::empty());
        return Some(strings_of_all(v));
    }
    let mut out: Vec<Vec<char>> = Vec::new();
    let mut last: usize = 25;
    assert(views(out@) =~= window_excerpts(lv, 25));
    while last < n
        invariant
            lv == views(ls@),
            n == ls@.len(),
            25 <= last <= n,
            views(out@) == window_excerpts(lv, last as int),
        decreases n - last,
    {
        if contains_str(&ls[last], "For full logs, run") {
            let e = excerpt_of(&ls, last - 25, last + 1);
            let ghost o0 = views(out@);
            let ghost ev = views(e@);
            let mut k: usize = 0;
            while k < e.len()
                invariant
                    k <= e@.len(),
                    ev == views(e@),
                    views(out@) == o0 + ev.take(k as int),
                decreases e@.len() - k,
            {
                let c = slice_chars(&e[k], 0, e[k].len());
                assert(c@ =~= ev[k as int]);
                let ghost a0 = views(out@);
                out.push(c);
                assert(views(out@) =~= a0.push(ev[k as int]));
                assert(ev.take(k + 1) =~= ev.take(k as int).push(ev[k as int]));
                k += 1;
            }
            assert(ev.take(e@.len() as int) =~= ev);
        }
        last += 1;
    }
    assert(views(out@) == window_excerpts(lv, n as int));
    Some(strings_of_all(out))
}

// ---------------------------------------------------------------------------------------------
// Following `nix log` lines
// ---------------------------------------------------------------------------------------------

/// The derivation of a failure entry `'nix log <drv>'.`, or `None` for other entries.
pub open spec fn nix_log_target(entry: Seq<char>) -> Option<Seq<char>> {
    match strip_prefix(entry, "'nix log "@) {
        Some(rest) => strip_suffix(rest, "'."@),
        None => None,
    }
}

/// The derivation named by a failure entry, if it is a `nix log` line.
pub fn nix_log_target_of(entry: &str) -> (r: Option<String>)
    ensures
        opt_view(r) == nix_log_target(entry@),
{
    let e = chars_of(entry);
    match strip_prefix_str(&e, "'nix log ") {
        Some(rest) => match strip_suffix_str(&rest, "'.") {
            Some(t) => Some(string_from_chars(t)),
            None => None,
        },
        None => None,
    }
}

/// The title of the paste of one derivation's log: the title prefix, then the derivation path
/// without its 44-byte `/nix/store/<hash>-` prefix and 4-byte `.drv` suffix. `None` where that
/// slicing panics (a path of fewer than 48 bytes, or a cut inside a character).
pub open spec fn derivation_paste_title(title_prefix: Seq<char>, drv: Seq<char>) -> Option<
    Seq<char>,
> {
    if byte_len(drv) < 4 {
        None
    } else {
        match byte_slice(drv, 44, byte_len(drv) - 4) {
            Some(name) => Some(title_prefix + " - "@ + name),
            None => None,
        }
    }
}

/// The title of the paste of one derivation's log; `None` where the byte cut of the path is not
/// possible (a path of fewer than 48 bytes, or a cut inside a character).
pub fn derivation_paste_title_of(title_prefix: &str, drv: &str) -> (r: Option<String>)
    ensures
        opt_view(r) == derivation_paste_title(title_prefix@, drv@),
{
    let d = chars_of(drv);
    let n = byte_len_exec(&d);
    if n < 4 {
        return None;
    }
    match byte_slice_exec(&d, 44, n - 4) {
        Some(name) => {
            let mut t = chars_of(title_prefix);
            push_str(&mut t, " - ");
            push_all(&mut t, &name);
            Some(string_from_chars(t))
        },
        None => None,
    }
}

/// `s` without its last character (`String::pop`; nothing for an empty string).
pub open spec fn pop_last(s: Seq<char>) -> Seq<char> {
    if s.len() > 0 {
        s.drop_last()
    } else {
        s
    }
}

/// A failure entry with the link to its log: the trailing `.` replaced by `: <url>`.
pub open spec fn linked_entry(entry: Seq<char>, url: Seq<char>) -> Seq<char> {
    pop_last(entry) + ": "@ + url
}

/// The lines of a log that are not blank, each preceded by a line feed.
pub open spec fn prefixed_lines(ls: Seq<Seq<char>>) -> Seq<char>
    decreases ls.len(),
{
    if ls.len() == 0 {
        Seq::empty()
    } else if is_blank(ls.last()) {
        prefixed_lines(ls.drop_last())
    } else {
        prefixed_lines(ls.drop_last()) + "\n"@ + ls.last()
    }
}

/// The tail of a derivation's log quoted under its entry: its last 25 lines (all lines of a
/// shorter, non-empty log), blank ones left out, then two empty lines.
pub open spec fn log_tail(log: Seq<char>) -> Seq<char> {
    let ls = lines(log);
    if ls.len() >= 25 {
        prefixed_lines(ls.skip(ls.len() - 25)) + "\n\n\n"@
    } else if log.len() > 0 {
        prefixed_lines(ls) + "\n\n\n"@
    } else {
        Seq::empty()
    }
}

/// A failure entry with the link to its log.
pub fn linked_entry_of(entry: &str, url: &str) -> (r: String)
    ensures
        r@ == linked_entry(entry@, url@),
{
    let e = chars_of(entry);
    let mut v = if e.len() > 0 {
        slice_chars(&e, 0, e.len() - 1)
    } else {
        e
    };
    assert(v@ =~= pop_last(entry@));
    push_str(&mut v, ": ");
    push_str(&mut v, url);
    string_from_chars(v)
}

/// A failure entry with the link to its log and the tail of the log quoted under it.
pub fn annotated_entry_of(entry: &str, url: &str, log: &str) -> (r: String)
    ensures
        r@ == linked_entry(entry@, url@) + log_tail(log@),
{
    let linked = linked_entry_of(entry, url);
    let mut v = chars_of(linked.as_str());
    let l = chars_of(log);
    let ls = lines_vec(&l);
    let ghost lv = views(ls@);
    let start: usize = if ls.len() >= 25 {
        ls.len() - 25
    } else {
        0
    };
    if ls.len() >= 25 || l.len() > 0 {
        let ghost sub = lv.skip(start as int);
        let ghost v0 = v@;
        let mut i = start;
        assert(sub.take(0) =~= Seq::<Seq<char>>::empty());
        while i < ls.len()
            invariant
                lv == views(ls@),
                start <= i <= ls@.len(),
                sub == lv.skip(start as int),
                v@ == v0 + prefixed_lines(sub.take(i - start)),
            decreases ls@.len() - i,
        {
            let ghost tk = sub.take(i - start + 1);
            assert(tk.drop_last() =~= sub.take(i - start));
            assert(tk.last() == ls@[i as int]@);
            if !is_blank_vec(&ls[i]) {
                push_str(&mut v, "\n");
                push_all(&mut v, &ls[i]);
            }
            i += 1;
        }
        assert(sub.take(ls@.len() - start) =~= sub);
        push_str(&mut v, "\n\n\n");
        proof {
            if ls@.len() < 25 {
                assert(sub =~= lv);
            }
        }
    }
    string_from_chars(v)
}

// ---------------------------------------------------------------------------------------------
// The paste service's answer
// ---------------------------------------------------------------------------------------------

/// What the paste service's answer comes to.
#[derive(Debug, PartialEq, Eq)]
pub enum PasteLink {
    /// The answer is not JSON: the upload fails with an error.
    NotJson,
    /// The answer has no string at `path`: there is no link to give.
    NoPath,
    /// The link to the paste: the service's address followed by the path.
    Url(String),
}

/// The link from the result of looking up `/path` in the answer.
pub open spec fn paste_link(base: Seq<char>, lookup: Option<Option<Seq<char>>>) -> Option<
    Option<Seq<char>>,
> {
    match lookup {
        None => None,
        Some(None) => Some(None),
        Some(Some(path)) => Some(Some(base + path)),
    }
}

/// The view of a paste link.
pub open spec fn paste_link_view(l: PasteLink) -> Option<Option<Seq<char>>> {
    match l {
        PasteLink::NotJson => None,
        PasteLink::NoPath => Some(None),
        PasteLink::Url(u) => Some(Some(u@)),
    }
}

/// The link from the result of looking up `/path` in the service's answer.
pub fn paste_link_from_lookup(base: &str, lookup: Option<Option<String>>) -> (r: PasteLink)
    ensures
        paste_link_view(r) == paste_link(base@, lookup_view(lookup)),
{
    match lookup {
        None => PasteLink::NotJson,
        Some(None) => PasteLink::NoPath,
        Some(Some(path)) => {
            let mut v = chars_of(base);
            push_str(&mut v, path.as_str());
            PasteLink::Url(string_from_chars(v))
        },
    }
}

/// The link to a paste from the body of the service's answer.
pub fn paste_link_of(base: &str, body: &[u8]) -> (r: PasteLink)
    ensures
        paste_link_view(r) == paste_link(base@, json_string_at(body@, "/path"@)),
{
    let lookup = json_string_at_call(body, "/path");
    paste_link_from_lookup(base, lookup)
}

} // verus!
