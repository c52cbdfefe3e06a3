//! The decisions of one pull request build: whether its base branch is supported, what a
//! cherry-pick outcome means, the arguments of the Nix build, and the reply to its result.
use vstd::prelude::*;

use crate::text::{
    byte_len, byte_slice, chars_eq, chars_in_bytes, chars_of, contains, contains_str, decimal,
    decimal_vec, has_prefix, join, join_vec, lemma_byte_len_push, lemma_encode_utf8_append,
    lemma_utf8_width_bounds, opt_view, push_all, push_str, slice_chars, split_char,
    split_char_vec, starts_with_str, string_from_chars, string_views, strings_of_all,
    strip_prefix, strip_prefix_str, trim_ascii_end, trim_ascii_end_vec, utf8_width_of, views,
};
use crate::trusted::{
    ansi_stripped, json_string_at, json_string_at_call, lookup_view, strip_ansi, utf8_lossy,
    utf8_lossy_call,
};

verus! {

// ---------------------------------------------------------------------------------------------
// Base branch
// ---------------------------------------------------------------------------------------------

/// The base branch named by a GitHub pull request lookup: `None` where the response was not
/// JSON, the string at `/base/ref` where there is one, else `release-` (which is refused).
pub open spec fn base_ref_of(lookup: Option<Option<Seq<char>>>) -> Option<Seq<char>> {
    match lookup {
        None => None,
        Some(Some(r)) => Some(r),
        Some(None) => Some("release-"@),
    }
}

/// The base branch from the result of looking up `/base/ref` in the response.
pub fn base_ref_from_lookup(lookup: Option<Option<String>>) -> (r: Option<String>)
    ensures
        opt_view(r) == base_ref_of(lookup_view(lookup)),
{
    match lookup {
        None => None,
        Some(Some(r)) => Some(r),
        Some(None) => Some(string_from_chars(chars_of("release-"))),
    }
}

/// The base branch of a pull request from the body of GitHub's pull request response; `None`
/// where the body is not JSON.
pub fn pr_base_ref(body: &[u8]) -> (r: Option<String>)
    ensures
        opt_view(r) == base_ref_of(json_string_at(body@, "/base/ref"@)),
{
    let lookup = json_string_at_call(body, "/base/ref");
    base_ref_from_lookup(lookup)
}

/// Pull requests are built only against `master`, `staging` and `staging-next`.
pub open spec fn supported_base(base: Seq<char>) -> bool {
    base == "master"@ || base == "staging"@ || base == "staging-next"@
}

/// Whether pull requests against `base` are built.
pub fn is_supported_base(base: &str) -> (b: bool)
    ensures
        b == supported_base(base@),
{
    let v = chars_of(base);
    chars_eq(&v, &chars_of("master")) || chars_eq(&v, &chars_of("staging")) || chars_eq(
        &v,
        &chars_of("staging-next"),
    )
}

// ---------------------------------------------------------------------------------------------
// Cherry-picks
// ---------------------------------------------------------------------------------------------

/// What a cherry-pick of one commit of the pull request came to.
#[derive(Debug, Clone, Copy, PartialEq, Eq, Structural)]
pub enum CherryPick {
    /// Applied (possibly as an empty commit).
    Applied,
    /// A merge commit, which is skipped with a warning.
    MergeCommit,
    /// A conflict: the build is abandoned.
    Conflict,
}

/// A cherry-pick failed, not merely for being empty, and git called the commit a merge.
pub open spec fn cherry_pick_outcome(success: bool, stderr: Seq<char>) -> CherryPick {
    if !success && !contains(stderr, "--allow-empty"@) {
        if contains(stderr, "is a merge"@) {
            CherryPick::MergeCommit
        } else {
            CherryPick::Conflict
        }
    } else {
        CherryPick::Applied
    }
}

/// Classifies a cherry-pick from its exit status and standard error.
pub fn classify_cherry_pick(success: bool, stderr: &str) -> (c: CherryPick)
    ensures
        c == cherry_pick_outcome(success, stderr@),
{
    let e = chars_of(stderr);
    if !success && !contains_str(&e, "--allow-empty") {
        if contains_str(&e, "is a merge") {
            CherryPick::MergeCommit
        } else {
            CherryPick::Conflict
        }
    } else {
        CherryPick::Applied
    }
}

/// Classifies a cherry-pick from its exit status and raw standard error (invalid UTF-8
/// replaced).
pub fn classify_cherry_pick_output(success: bool, stderr: &[u8]) -> (c: CherryPick)
    ensures
        c == cherry_pick_outcome(success, utf8_lossy(stderr@)),
{
    let e = utf8_lossy_call(stderr);
    classify_cherry_pick(success, e.as_str())
}

// ---------------------------------------------------------------------------------------------
// The Nix invocation
// ---------------------------------------------------------------------------------------------

/// The directory of the worktree of pull request `num`.
pub open spec fn worktree_dir(num: u32) -> Seq<char> {
    "/tmp/nixpkgs-"@ + decimal(num as nat)
}

/// The directory of the worktree of pull request `num`.
pub fn worktree_dir_of(num: u32) -> (r: String)
    ensures
        r@ == worktree_dir(num),
{
    let mut v = chars_of("/tmp/nixpkgs-");
    let d = decimal_vec(num as u64);
    push_all(&mut v, &d);
    string_from_chars(v)
}

/// The `nix-shell -p` argument for a package: attribute paths starting with `pkgs` as they are,
/// other names looked up in `pkgs`, falling back to a stand-in whose name marks the package as
/// undefined.
pub open spec fn package_arg(x: Seq<char>) -> Seq<char> {
    if has_prefix(x, "pkgs"@) {
        x
    } else {
        "pkgs."@ + x + " or (undefined-variable.override { pname = \""@ + x + "\"; })"@
    }
}

/// The arguments of `sudo` for the build: run `nix-shell` as `nix_user` with unfree and insecure
/// packages allowed, keep going on failures, `jobs` jobs, `cores` cores per job where given, the
/// worktree `tmp` as `nixpkgs`, and every package.
pub open spec fn nix_arguments(
    nix_user: Seq<char>,
    jobs: u64,
    tmp: Seq<char>,
    cores: Option<u64>,
    pkgs: Seq<Seq<char>>,
) -> Seq<Seq<char>> {
    let head = Seq::empty().push("-S"@).push("-u"@).push(nix_user).push(
        "--preserve-env=NIXPKGS_ALLOW_UNFREE,NIXPKGS_ALLOW_INSECURE"@,
    ).push("nix-shell"@).push("--run"@).push("sh -c 'echo $buildInputs'"@).push("-k"@).push(
        "-j"@,
    ).push(decimal(jobs as nat)).push("-I"@).push("nixpkgs="@ + tmp);
    let with_cores = match cores {
        Some(c) => head.push("--cores"@).push(decimal(c as nat)),
        None => head,
    };
    with_cores.push("-p"@) + pkgs.map_values(|x: Seq<char>| package_arg(x))
}

/// Pushes a copy of the characters of `s` onto `v`.
fn push_text(v: &mut Vec<Vec<char>>, s: &str)
    ensures
        views(final(v)@) == views(old(v)@).push(s@),
{
    let c = chars_of(s);
    v.push(c);
    assert(views(v@) =~= views(old(v)@).push(s@));
}

/// Pushes a character vector onto `v`.
fn push_chars(v: &mut Vec<Vec<char>>, c: Vec<char>)
    ensures
        views(final(v)@) == views(old(v)@).push(c@),
{
    let ghost cv = c@;
    v.push(c);
    assert(views(v@) =~= views(old(v)@).push(cv));
}

/// The arguments of `sudo` for building the packages of a pull request.
pub fn nix_args(nix_user: &str, jobs: u64, tmp: &str, cores: Option<u64>, pkgs: &Vec<String>) -> (r:
    Vec<String>)
    ensures
        string_views(r@) == nix_arguments(nix_user@, jobs, tmp@, cores, string_views(pkgs@)),
{
    let mut v: Vec<Vec<char>> = Vec::new();
    assert(views(v@) =~= Seq::<Seq<char>>::empty());
    push_text(&mut v, "-S");
    push_text(&mut v, "-u");
    push_text(&mut v, nix_user);
    push_text(&mut v, "--preserve-env=NIXPKGS_ALLOW_UNFREE,NIXPKGS_ALLOW_INSECURE");
    push_text(&mut v, "nix-shell");
    push_text(&mut v, "--run");
    push_text(&mut v, "sh -c 'echo $buildInputs'");
    push_text(&mut v, "-k");
    push_text(&mut v, "-j");
    push_chars(&mut v, decimal_vec(jobs));
    push_text(&mut v, "-I");
    let mut n = chars_of("nixpkgs=");
    push_str(&mut n, tmp);
    push_chars(&mut v, n);
    match cores {
        Some(c) => {
            push_text(&mut v, "--cores");
            push_chars(&mut v, decimal_vec(c));
        },
        None => {},
    }
    push_text(&mut v, "-p");
    let ghost before = views(v@);
    let ghost ps = string_views(pkgs@);
    let mut i: usize = 0;
    while i < pkgs.len()
        invariant
            ps == string_views(pkgs@),
            i <= pkgs@.len(),
            views(v@) == before + ps.take(i as int).map_values(|x: Seq<char>| package_arg(x)),
        decreases pkgs@.len() - i,
    {
        let x = chars_of(pkgs[i].as_str());
        assert(x@ == ps[i as int]);
        let arg = if starts_with_str(&x, "pkgs") {
            x
        } else {
            let mut a = chars_of("pkgs.");
            push_all(&mut a, &x);
            push_str(&mut a, " or (undefined-variable.override { pname = \"");
            push_all(&mut a, &x);
            push_str(&mut a, "\"; })");
            a
        };
        assert(arg@ == package_arg(ps[i as int]));
        push_chars(&mut v, arg);
        assert(ps.take(i + 1).map_values(|x: Seq<char>| package_arg(x)) =~= ps.take(
            i as int,
        ).map_values(|x: Seq<char>| package_arg(x)).push(package_arg(ps[i as int])));
        i += 1;
    }
    assert(ps.take(pkgs@.len() as int) =~= ps);
    let r = strings_of_all(v);
    assert(string_views(r@) =~= nix_arguments(nix_user@, jobs, tmp@, cores, ps));
    r
}

// ---------------------------------------------------------------------------------------------
// The reply to a successful build
// ---------------------------------------------------------------------------------------------

/// What became of one word of `nix-shell`'s output: store paths lose their 44-byte
/// `/nix/store/<hash>-` prefix (words of more than 44 bytes lose their first 44 bytes) and
/// trailing ASCII white space. `None` where byte 44 falls inside a character, where the slicing
/// panics.
pub open spec fn built_name(word: Seq<char>) -> Option<Seq<char>> {
    if byte_len(word) > 44 {
        match byte_slice(word, 44, byte_len(word) as int) {
            Some(rest) => Some(trim_ascii_end(rest)),
            None => None,
        }
    } else {
        Some(trim_ascii_end(word))
    }
}

/// The built names of all words, or `None` where one of them makes the slicing panic.
pub open spec fn built_names(words: Seq<Seq<char>>) -> Option<Seq<Seq<char>>>
    decreases words.len(),
{
    if words.len() == 0 {
        Some(Seq::empty())
    } else {
        match (built_names(words.drop_last()), built_name(words.last())) {
            (Some(names), Some(n)) => Some(names.push(n)),
            _ => None,
        }
    }
}

/// The names of packages really built: the stand-ins for undefined names left out.
pub open spec fn real_builds(names: Seq<Seq<char>>) -> Seq<Seq<char>>
    decreases names.len(),
{
    if names.len() == 0 {
        Seq::empty()
    } else if has_prefix(names.last(), "undefined-variable"@) {
        real_builds(names.drop_last())
    } else {
        real_builds(names.drop_last()).push(names.last())
    }
}

/// The names that were undefined in nixpkgs, from the stand-ins `undefined-variable-<name>`.
pub open spec fn undefined_names(names: Seq<Seq<char>>) -> Seq<Seq<char>>
    decreases names.len(),
{
    if names.len() == 0 {
        Seq::empty()
    } else {
        match strip_prefix(names.last(), "undefined-variable-"@) {
            Some(n) => undefined_names(names.drop_last()).push(n),
            None => undefined_names(names.drop_last()),
        }
    }
}

/// The warnings appended to the reply: merge commits that were skipped, and undefined names.
pub open spec fn build_warnings(warn_merge: bool, undefined: Seq<char>) -> Seq<char> {
    (if warn_merge {
        "\n⚠️ PR contains merge commits"@
    } else {
        Seq::empty()
    }) + (if undefined.len() > 0 {
        "\n⚠️ Undefined variables: "@ + undefined
    } else {
        Seq::empty()
    })
}

/// The reply to a successful build of pull request `num` whose `nix-shell` printed `stdout`;
/// `None` where cutting a store path prefix would panic.
pub open spec fn success_message(num: u32, stdout: Seq<char>, warn_merge: bool) -> Option<
    Seq<char>,
> {
    match built_names(split_char(stdout, ' ')) {
        None => None,
        Some(names) => {
            let built = join(real_builds(names), " "@);
            let extra = build_warnings(warn_merge, join(undefined_names(names), " "@));
            Some(
                if built.len() == 0 {
                    "❓ PR "@ + decimal(num as nat) + ", nothing built"@ + extra
                } else {
                    "✅ PR "@ + decimal(num as nat) + ", built "@ + built + extra
                },
            )
        },
    }
}

/// The reply to a successful build of pull request `num` from the raw standard output of
/// `nix-shell` (invalid UTF-8 replaced); `None` where cutting the 44-byte store prefix off a
/// word falls inside a character.
pub fn success_reply_of_output(num: u32, stdout: &[u8], warn_merge: bool) -> (r: Option<String>)
    ensures
        opt_view(r) == success_message(num, utf8_lossy(stdout@), warn_merge),
{
    let text = utf8_lossy_call(stdout);
    success_reply(num, text.as_str(), warn_merge)
}

/// Whether `s` takes more than `n` bytes in UTF-8.
fn byte_len_exceeds(s: &Vec<char>, n: usize) -> (b: bool)
    ensures
        b == (byte_len(s@) > n),
{
    let mut total: usize = 0;
    let mut k: usize = 0;
    assert(s@.take(0) =~= Seq::<char>::empty());
    while k < s.len()
        invariant
            k <= s@.len(),
            total == byte_len(s@.take(k as int)),
            total <= n,
        decreases s@.len() - k,
    {
        let w = utf8_width_of(s[k]);
        proof {
            lemma_byte_len_push(s@.take(k as int), s@[k as int]);
            assert(s@.take(k as int).push(s@[k as int]) =~= s@.take(k + 1));
        }
        if w > n - total {
            proof {
                lemma_encode_utf8_append(s@.take(k + 1), s@.skip(k + 1));
                assert(s@.take(k + 1) + s@.skip(k + 1) =~= s@);
            }
            return true;
        }
        total = total + w;
        k += 1;
    }
    assert(s@.take(k as int) =~= s@);
    false
}

/// The built name of one output word; `None` where the slicing panics.
fn built_name_exec(word: &Vec<char>) -> (r: Option<Vec<char>>)
    ensures
        match r {
            Some(n) => built_name(word@) == Some(n@),
            None => built_name(word@) is None,
        },
{
    if byte_len_exceeds(word, 44) {
        // The slice runs to the end, so only the start offset can be off a boundary.
        match byte_slice_exec_to_end(word, 44) {
            Some(rest) => Some(trim_ascii_end_vec(&rest)),
            None => None,
        }
    } else {
        Some(trim_ascii_end_vec(word))
    }
}

/// `&s[a..]` with a byte offset; `None` where the slicing would panic.
fn byte_slice_exec_to_end(s: &Vec<char>, a: usize) -> (r: Option<Vec<char>>)
    requires
        byte_len(s@) > a,
    ensures
        match r {
            Some(t) => byte_slice(s@, a as int, byte_len(s@) as int) == Some(t@),
            None => byte_slice(s@, a as int, byte_len(s@) as int) is None,
        },
{
    let start = crate::text::chars_in_bytes_exec(s, a as u128);
    proof {
        lemma_chars_in_bytes_full(s@);
    }
    match start {
        Some(i) => {
            proof {
                crate::text::lemma_chars_in_bytes(s@, a as int);
            }
            Some(slice_chars(s, i, s.len()))
        },
        None => None,
    }
}

/// The whole of `s` ends on a character boundary.
proof fn lemma_chars_in_bytes_full(s: Seq<char>)
    ensures
        chars_in_bytes(s, byte_len(s) as int) == Some(s.len() as int),
    decreases s.len(),
{
    if s.len() > 0 {
        lemma_chars_in_bytes_full(s.drop_first());
        lemma_utf8_width_bounds(s[0]);
        assert(vstd::utf8::encode_utf8(s) =~= vstd::utf8::encode_scalar(s[0] as u32)
            + vstd::utf8::encode_utf8(s.drop_first()));
    } else {
        assert(vstd::utf8::encode_utf8(s) =~= Seq::<u8>::empty());
    }
}

/// The reply to a successful build of pull request `num`; `None` where cutting the 44-byte store
/// prefix off a word falls inside a character.
pub fn success_reply(num: u32, stdout: &str, warn_merge: bool) -> (r: Option<String>)
    ensures
        opt_view(r) == success_message(num, stdout@, warn_merge),
{
    let out = chars_of(stdout);
    let words = split_char_vec(&out, ' ');
    let ghost ws = views(words@);
    let mut names: Vec<Vec<char>> = Vec::new();
    let mut i: usize = 0;
    assert(ws.take(0) =~= Seq::<Seq<char>>::empty());
    assert(views(names@) =~= Seq::<Seq<char>>::empty());
    while i < words.len()
        invariant
            ws == views(words@),
            ws == split_char(stdout@, ' '),
            i <= words@.len(),
            built_names(ws.take(i as int)) == Some(views(names@)),
        decreases words@.len() - i,
    {
        assert(ws.take(i + 1).drop_last() =~= ws.take(i as int));
        assert(ws.take(i + 1).last() == words@[i as int]@);
        match built_name_exec(&words[i]) {
            Some(n) => {
                let ghost n0 = views(names@);
                let ghost nv = n@;
                names.push(n);
                assert(views(names@) =~= n0.push(nv));
            },
            None => {
                proof {
                    lemma_built_names_none(ws, i as int);
                }
                return None;
            },
        }
        i += 1;
    }
    assert(ws.take(words@.len() as int) =~= ws);
    let ghost nm = views(names@);
    // Names really built, and names reported undefined.
    let mut built: Vec<Vec<char>> = Vec::new();
    let mut undefined: Vec<Vec<char>> = Vec::new();
    let mut j: usize = 0;
    assert(nm.take(0) =~= Seq::<Seq<char>>::empty());
    assert(views(built@) =~= Seq::<Seq<char>>::empty());
    assert(views(undefined@) =~= Seq::<Seq<char>>::empty());
    while j < names.len()
        invariant
            nm == views(names@),
            j <= names@.len(),
            views(built@) == real_builds(nm.take(j as int)),
            views(undefined@) == undefined_names(nm.take(j as int)),
        decreases names@.len() - j,
    {
        let ghost t = nm.take(j + 1);
        assert(t.drop_last() =~= nm.take(j as int));
        assert(t.last() == names@[j as int]@);
        let n = &names[j];
        if !starts_with_str(n, "undefined-variable") {
            let c = slice_chars(n, 0, n.len());
            assert(c@ =~= n@);
            let ghost r0 = views(built@);
            built.push(c);
            assert(views(built@) =~= r0.push(n@));
        }
        match strip_prefix_str(n, "undefined-variable-") {
            Some(u) => {
                let ghost u0 = views(undefined@);
                let ghost uv = u@;
                undefined.push(u);
                assert(views(undefined@) =~= u0.push(uv));
            },
            None => {},
        }
        j += 1;
    }
    assert(nm.take(names@.len() as int) =~= nm);
    let space = chars_of(" ");
    let real_text = join_vec(&built, &space);
    let undefined_text = join_vec(&undefined, &space);
    let mut extra: Vec<char> = Vec::new();
    if warn_merge {
        push_str(&mut extra, "\n⚠️ PR contains merge commits");
    }
    if undefined_text.len() > 0 {
        push_str(&mut extra, "\n⚠️ Undefined variables: ");
        push_all(&mut extra, &undefined_text);
    }
    assert(extra@ =~= build_warnings(warn_merge, undefined_text@));
    let d = decimal_vec(num as u64);
    let mut msg: Vec<char>;
    if real_text.len() == 0 {
        msg = chars_of("❓ PR ");
        push_all(&mut msg, &d);
        push_str(&mut msg, ", nothing built");
        push_all(&mut msg, &extra);
    } else {
        msg = chars_of("✅ PR ");
        push_all(&mut msg, &d);
        push_str(&mut msg, ", built ");
        push_all(&mut msg, &real_text);
        push_all(&mut msg, &extra);
    }
    Some(string_from_chars(msg))
}

/// Where the name of one word is `None`, so are the names of all words.
proof fn lemma_built_names_none(ws: Seq<Seq<char>>, i: int)
    requires
        0 <= i < ws.len(),
        built_name(ws[i]) is None,
    ensures
        built_names(ws) is None,
    decreases ws.len(),
{
    if i < ws.len() - 1 {
        lemma_built_names_none(ws.drop_last(), i);
    }
}

// ---------------------------------------------------------------------------------------------
// The reply to a failed build
// ---------------------------------------------------------------------------------------------

/// How the error output of a failed build is reported.
#[derive(Debug, PartialEq, Eq)]
pub enum FailureReport {
    /// Short output (at most ten lines) is sent as a message of its own.
    Inline(String),
    /// Longer output is uploaded and linked.
    Paste(String),
}

/// The error output as reported: colour codes removed, invalid UTF-8 replaced.
pub open spec fn failure_text(stderr: Seq<u8>) -> Seq<char> {
    utf8_lossy(ansi_stripped(stderr))
}

/// Output of at most ten lines (no eleventh piece after ten line feeds) is sent inline.
pub open spec fn is_short_output(text: Seq<char>) -> bool {
    split_char(text, '\n').len() <= 10
}

/// Decides how to report the (cleaned) error output `text`.
pub fn report_for_text(text: String) -> (r: FailureReport)
    ensures
        match r {
            FailureReport::Inline(t) => t@ == text@ && is_short_output(text@),
            FailureReport::Paste(t) => t@ == text@ && !is_short_output(text@),
        },
{
    let v = chars_of(text.as_str());
    let pieces = split_char_vec(&v, '\n');
    if pieces.len() <= 10 {
        FailureReport::Inline(text)
    } else {
        FailureReport::Paste(text)
    }
}

/// Output of a command as text: colour codes removed, invalid UTF-8 replaced.
pub fn cleaned_output(bytes: &[u8]) -> (r: String)
    ensures
        r@ == failure_text(bytes@),
{
    let stripped = strip_ansi(bytes);
    utf8_lossy_call(stripped.as_slice())
}

/// Cleans the error output of a failed build and decides how to report it.
pub fn failure_report(stderr: &[u8]) -> (r: FailureReport)
    ensures
        match r {
            FailureReport::Inline(t) => t@ == failure_text(stderr@) && is_short_output(t@),
            FailureReport::Paste(t) => t@ == failure_text(stderr@) && !is_short_output(t@),
        },
{
    let text = cleaned_output(stderr);
    report_for_text(text)
}

// ---------------------------------------------------------------------------------------------
// Laws
// ---------------------------------------------------------------------------------------------

/// Only `master`, `staging` and `staging-next` are built: every other branch is refused, in
/// particular every other `staging-...` branch (such as a stable `staging-24.11`) and every
/// `release-...` branch.
pub proof fn law_supported_bases(b: Seq<char>, r: Seq<char>)
    ensures
        supported_base("master"@),
        supported_base("staging"@),
        supported_base("staging-next"@),
        supported_base(b) ==> b.len() == 6 || b.len() == 7 || b.len() == 12,
        r != "next"@ ==> !supported_base("staging-"@ + r),
        !supported_base("release-"@ + r),
        !supported_base(b + "/"@),
{
    reveal_strlit("master");
    reveal_strlit("staging");
    reveal_strlit("staging-next");
    reveal_strlit("staging-");
    reveal_strlit("release-");
    reveal_strlit("next");
    reveal_strlit("/");
    let t = "staging-"@ + r;
    if r != "next"@ && supported_base(t) {
        if t == "staging-next"@ {
            assert(t.skip(8) =~= r);
            assert("staging-next"@.skip(8) =~= "next"@);
        } else if t == "staging"@ {
            assert(t.len() >= 8);
        } else {
            assert(t[0] == 's');
        }
    }
    let u = "release-"@ + r;
    if supported_base(u) {
        assert(u[0] == 'r');
        if u == "staging"@ || u == "staging-next"@ {
            assert(u[0] == 's');
        } else {
            assert("master"@[0] == 'm');
        }
    }
    let v = b + "/"@;
    if supported_base(v) {
        assert(v[v.len() - 1] == '/');
        if v == "master"@ {
            assert("master"@[5] == 'r');
        } else if v == "staging"@ {
            assert("staging"@[6] == 'g');
        } else {
            assert("staging-next"@[11] == 't');
        }
    }
}

/// The stand-in prefix of names undefined in nixpkgs.
pub open spec fn is_stand_in(n: Seq<char>) -> bool {
    n.len() >= 18 && n.subrange(0, 18) == "undefined-variable"@
}

/// A stand-in for an undefined name: `undefined-variable-<name>`.
pub open spec fn names_undefined(n: Seq<char>) -> bool {
    n.len() >= 19 && n.subrange(0, 19) == "undefined-variable-"@
}

/// The names really built are the output names that are not stand-ins, in order; the undefined
/// names are those of every stand-in `undefined-variable-<name>`, one each, in order, with the
/// prefix removed.
pub proof fn law_built_and_undefined(names: Seq<Seq<char>>)
    ensures
        real_builds(names) == names.filter(|n: Seq<char>| !is_stand_in(n)),
        undefined_names(names) == names.filter(|n: Seq<char>| names_undefined(n)).map_values(
            |n: Seq<char>| n.skip(19),
        ),
        undefined_names(names).len() == names.filter(|n: Seq<char>| names_undefined(n)).len(),
    decreases names.len(),
{
    reveal_strlit("undefined-variable");
    reveal_strlit("undefined-variable-");
    reveal(Seq::filter);
    if names.len() > 0 {
        law_built_and_undefined(names.drop_last());
        let n = names.last();
        assert(has_prefix(n, "undefined-variable"@) == is_stand_in(n));
        assert(has_prefix(n, "undefined-variable-"@) == names_undefined(n));
        let f = names.drop_last().filter(|n: Seq<char>| names_undefined(n));
        if names_undefined(n) {
            assert(names.filter(|n: Seq<char>| names_undefined(n)) == f.push(n));
            assert(f.push(n).map_values(|n: Seq<char>| n.skip(19)) =~= f.map_values(
                |n: Seq<char>| n.skip(19),
            ).push(n.skip(19)));
        } else {
            assert(names.filter(|n: Seq<char>| names_undefined(n)) == f);
        }
    } else {
        assert(names.filter(|n: Seq<char>| names_undefined(n)) =~= Seq::<Seq<char>>::empty());
        assert(names.filter(|n: Seq<char>| !is_stand_in(n)) =~= Seq::<Seq<char>>::empty());
    }
}

/// The reply to a successful build lists the names really built, separated by spaces, and
/// warns about every undefined name (in output order, separated by spaces) and about skipped
/// merge commits.
pub proof fn law_success_message(num: u32, stdout: Seq<char>, warn_merge: bool, names: Seq<Seq<char>>)
    requires
        built_names(split_char(stdout, ' ')) == Some(names),
    ensures
        ({
            let built = join(names.filter(|n: Seq<char>| !is_stand_in(n)), " "@);
            let undefined = join(
                names.filter(|n: Seq<char>| names_undefined(n)).map_values(|n: Seq<char>| n.skip(19)),
                " "@,
            );
            let extra = (if warn_merge {
                "\n⚠️ PR contains merge commits"@
            } else {
                Seq::empty()
            }) + (if undefined.len() > 0 {
                "\n⚠️ Undefined variables: "@ + undefined
            } else {
                Seq::empty()
            });
            success_message(num, stdout, warn_merge) == Some(
                if built.len() == 0 {
                    "❓ PR "@ + decimal(num as nat) + ", nothing built"@ + extra
                } else {
                    "✅ PR "@ + decimal(num as nat) + ", built "@ + built + extra
                },
            )
        }),
{
    law_built_and_undefined(names);
}

} // verus!
