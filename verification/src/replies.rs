//! The texts the bot sends: its introduction and the notices about a pull request build.
use vstd::prelude::*;

use crate::pr_flow::Refusal;
use crate::trusted::{utf8_lossy, utf8_lossy_call};
use crate::text::{
    chars_of, chars_of_all, decimal, decimal_vec, join, join_vec, push_all, push_str,
    string_from_chars, string_views,
};

verus! {

/// The introduction sent for `/start`: the usage of `/pr`, what pull requests are tested on
/// (`description`), and whom to contact.
pub open spec fn start_message(contact: Seq<char>, description: Seq<char>) -> Seq<char> {
    "This bot allows you to build nixpkgs PRs.\nUsage: /pr <number> <packages> -<exclude packages>\nYou can also just send the PR as URL. Packages is a space seperated list of additional packages to build. You can exclude certain packages by prefixing them with -.\nPRs are tested by cherry-picking their commits on "@
        + description + ".\nPing "@ + contact + " if you have trouble."@
}

/// The introduction sent for `/start`.
pub fn start_text(contact: &str, description: &str) -> (r: String)
    ensures
        r@ == start_message(contact@, description@),
{
    let mut v = chars_of(
        "This bot allows you to build nixpkgs PRs.\nUsage: /pr <number> <packages> -<exclude packages>\nYou can also just send the PR as URL. Packages is a space seperated list of additional packages to build. You can exclude certain packages by prefixing them with -.\nPRs are tested by cherry-picking their commits on ",
    );
    push_str(&mut v, description);
    push_str(&mut v, ".\nPing ");
    push_str(&mut v, contact);
    push_str(&mut v, " if you have trouble.");
    string_from_chars(v)
}

/// A notice about the build of a pull request.
pub enum Notice {
    /// The pull request targets another branch than master, staging or staging-next.
    UnsupportedBase,
    /// As many builds as allowed are running.
    TooManyRunning,
    /// The pull request is being processed already.
    AlreadyRunning,
    /// The build has started; the commits are being fetched.
    Fetching,
    /// The commits of the pull request, oldest first.
    Changes(Vec<String>),
    /// The packages being built.
    Building(Vec<String>),
    /// Cherry-picking commit `id` failed; the conflict is pasted at `url`.
    Conflict { id: String, url: String },
    /// The build failed (its output follows in a message of its own).
    BuildFailed,
    /// The build failed; its log is pasted at `url`.
    BuildFailedLog { url: String },
}

/// A notice over mathematical values.
pub enum NoticeView {
    UnsupportedBase,
    TooManyRunning,
    AlreadyRunning,
    Fetching,
    Changes(Seq<Seq<char>>),
    Building(Seq<Seq<char>>),
    Conflict(Seq<char>, Seq<char>),
    BuildFailed,
    BuildFailedLog(Seq<char>),
}

impl Notice {
    /// The notice over mathematical values.
    pub open spec fn view(&self) -> NoticeView {
        match self {
            Notice::UnsupportedBase => NoticeView::UnsupportedBase,
            Notice::TooManyRunning => NoticeView::TooManyRunning,
            Notice::AlreadyRunning => NoticeView::AlreadyRunning,
            Notice::Fetching => NoticeView::Fetching,
            Notice::Changes(l) => NoticeView::Changes(string_views(l@)),
            Notice::Building(p) => NoticeView::Building(string_views(p@)),
            Notice::Conflict { id, url } => NoticeView::Conflict(id@, url@),
            Notice::BuildFailed => NoticeView::BuildFailed,
            Notice::BuildFailedLog { url } => NoticeView::BuildFailedLog(url@),
        }
    }
}

/// The text of a notice about pull request `num`.
pub open spec fn notice_message(num: u32, n: NoticeView) -> Seq<char> {
    let d = decimal(num as nat);
    match n {
        NoticeView::UnsupportedBase => "🛑 PR does not target master/staging/staging-next"@,
        NoticeView::TooManyRunning => "🤖 too many PRs already running"@,
        NoticeView::AlreadyRunning => "🤖 already processing that PR"@,
        NoticeView::Fetching => "⏳ PR "@ + d + ", fetching ..."@,
        NoticeView::Changes(l) => "⏳ PR "@ + d + ", changes:\n"@ + join(l, "\n"@),
        NoticeView::Building(p) => "⏳ PR "@ + d + ", building: "@ + join(p, " "@),
        NoticeView::Conflict(id, url) => "😢 PR "@ + d + ", cherry-pick of "@ + id
            + " failed\n👉 Conflict: "@ + url,
        NoticeView::BuildFailed => "💥 PR "@ + d + ", build failed"@,
        NoticeView::BuildFailedLog(url) => "💥 PR "@ + d + ", build failed\n👉 Full log: "@ + url,
    }
}

/// The text of a notice about pull request `num`.
pub fn notice_text(num: u32, n: &Notice) -> (r: String)
    ensures
        r@ == notice_message(num, n.view()),
{
    let d = decimal_vec(num as u64);
    let mut v: Vec<char>;
    match n {
        Notice::UnsupportedBase => {
            v = chars_of("🛑 PR does not target master/staging/staging-next");
        },
        Notice::TooManyRunning => {
            v = chars_of("🤖 too many PRs already running");
        },
        Notice::AlreadyRunning => {
            v = chars_of("🤖 already processing that PR");
        },
        Notice::Fetching => {
            v = chars_of("⏳ PR ");
            push_all(&mut v, &d);
            push_str(&mut v, ", fetching ...");
        },
        Notice::Changes(l) => {
            v = chars_of("⏳ PR ");
            push_all(&mut v, &d);
            push_str(&mut v, ", changes:\n");
            let parts = chars_of_all(l);
            let sep = chars_of("\n");
            let j = join_vec(&parts, &sep);
            push_all(&mut v, &j);
        },
        Notice::Building(p) => {
            v = chars_of("⏳ PR ");
            push_all(&mut v, &d);
            push_str(&mut v, ", building: ");
            let parts = chars_of_all(p);
            let sep = chars_of(" ");
            let j = join_vec(&parts, &sep);
            push_all(&mut v, &j);
        },
        Notice::Conflict { id, url } => {
            v = chars_of("😢 PR ");
            push_all(&mut v, &d);
            push_str(&mut v, ", cherry-pick of ");
            push_str(&mut v, id.as_str());
            push_str(&mut v, " failed\n👉 Conflict: ");
            push_str(&mut v, url.as_str());
        },
        Notice::BuildFailed => {
            v = chars_of("💥 PR ");
            push_all(&mut v, &d);
            push_str(&mut v, ", build failed");
        },
        Notice::BuildFailedLog { url } => {
            v = chars_of("💥 PR ");
            push_all(&mut v, &d);
            push_str(&mut v, ", build failed\n👉 Full log: ");
            push_str(&mut v, url.as_str());
        },
    }
    string_from_chars(v)
}

/// The notice that turns a request down for `r`.
pub open spec fn refusal_notice_view(r: Refusal) -> NoticeView {
    match r {
        Refusal::UnsupportedBase => NoticeView::UnsupportedBase,
        Refusal::TooManyRunning => NoticeView::TooManyRunning,
        Refusal::AlreadyRunning => NoticeView::AlreadyRunning,
    }
}

/// The notice that turns a request down for `r`.
pub fn refusal_notice(r: Refusal) -> (n: Notice)
    ensures
        n.view() == refusal_notice_view(r),
{
    match r {
        Refusal::UnsupportedBase => Notice::UnsupportedBase,
        Refusal::TooManyRunning => Notice::TooManyRunning,
        Refusal::AlreadyRunning => Notice::AlreadyRunning,
    }
}

/// What is pasted for a cherry-pick conflict: git's output and error output and the diff.
pub open spec fn conflict_log(stdout: Seq<char>, stderr: Seq<char>, diff: Seq<char>) -> Seq<char> {
    "git cherry-pick standard output:\n"@ + stdout + "\ngit cherry-pick standard error:\n"@
        + stderr + "\ngit diff output:\n"@ + diff
}

/// What is pasted for a cherry-pick conflict.
pub fn conflict_log_text(stdout: &str, stderr: &str, diff: &str) -> (r: String)
    ensures
        r@ == conflict_log(stdout@, stderr@, diff@),
{
    let mut v = chars_of("git cherry-pick standard output:\n");
    push_str(&mut v, stdout);
    push_str(&mut v, "\ngit cherry-pick standard error:\n");
    push_str(&mut v, stderr);
    push_str(&mut v, "\ngit diff output:\n");
    push_str(&mut v, diff);
    string_from_chars(v)
}

/// What is pasted for a cherry-pick conflict, from the raw output of git (invalid UTF-8
/// replaced).
pub fn conflict_log_of_output(stdout: &[u8], stderr: &[u8], diff: &[u8]) -> (r: String)
    ensures
        r@ == conflict_log(utf8_lossy(stdout@), utf8_lossy(stderr@), utf8_lossy(diff@)),
{
    let o = utf8_lossy_call(stdout);
    let e = utf8_lossy_call(stderr);
    let d = utf8_lossy_call(diff);
    conflict_log_text(o.as_str(), e.as_str(), d.as_str())
}

/// The title of the paste of a cherry-pick conflict of pull request `num`.
pub open spec fn conflict_paste_title(num: u32) -> Seq<char> {
    "PR "@ + decimal(num as nat) + " - cherry-pick conflict"@
}

/// The title of the paste of the log of a failed build of pull request `num`.
pub open spec fn build_log_paste_title(num: u32) -> Seq<char> {
    build_log_title_prefix(num) + " - summary"@
}

/// What the pastes of the derivation logs of a failed build of pull request `num` are titled
/// with.
pub open spec fn build_log_title_prefix(num: u32) -> Seq<char> {
    "PR #"@ + decimal(num as nat)
}

/// The title of the paste of a cherry-pick conflict of pull request `num`.
pub fn conflict_paste_title_of(num: u32) -> (r: String)
    ensures
        r@ == conflict_paste_title(num),
{
    let mut v = chars_of("PR ");
    let d = decimal_vec(num as u64);
    push_all(&mut v, &d);
    push_str(&mut v, " - cherry-pick conflict");
    string_from_chars(v)
}

/// The title of the paste of a failed build's log of pull request `num`, and the prefix of the
/// titles of its derivation logs.
pub fn build_log_paste_titles(num: u32) -> (r: (String, String))
    ensures
        r.0@ == build_log_paste_title(num),
        r.1@ == build_log_title_prefix(num),
{
    let mut p = chars_of("PR #");
    let d = decimal_vec(num as u64);
    push_all(&mut p, &d);
    let mut t = p.clone();
    assert(t@ == p@);
    push_str(&mut t, " - summary");
    (string_from_chars(t), string_from_chars(p))
}

/// The progress message after `line` is added to it.
pub open spec fn extended_progress(progress: Seq<char>, line: Seq<char>) -> Seq<char> {
    progress + "\n"@ + line
}

/// Adds a line to the progress message.
pub fn extend_progress(progress: &mut String, line: &str)
    ensures
        final(progress)@ == extended_progress(old(progress)@, line@),
{
    let mut v = chars_of(progress.as_str());
    push_str(&mut v, "\n");
    push_str(&mut v, line);
    *progress = string_from_chars(v);
}

} // verus!
