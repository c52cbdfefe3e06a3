use nixpkgs_pr_build_bot::command::{parse_command, parse_message, Command};
use nixpkgs_pr_build_bot::full_build::{changed_packages, changed_packages_of_output, full_packages_to_build};
use nixpkgs_pr_build_bot::pr_build::CherryPick;
use nixpkgs_pr_build_bot::pr_flow::{pr_step, PrAction, PrEvent, PrRun, Refusal, Stage};
use nixpkgs_pr_build_bot::pr_build::{classify_cherry_pick_output, success_reply_of_output};
use nixpkgs_pr_build_bot::replies::{
    build_log_paste_titles, conflict_log_of_output, conflict_paste_title_of, conflict_log_text, extend_progress, notice_text, refusal_notice, start_text, Notice,
};
use nixpkgs_pr_build_bot::state::Admission;
use nixpkgs_pr_build_bot::vec_ext::remove_string_item;

fn strings(v: &[&str]) -> Vec<String> {
    v.iter().map(|s| s.to_string()).collect()
}

#[test]
fn full_command() {
    assert_eq!(parse_command("/full 123"), Command::Full { num: 123, pkgs: vec![] });
    assert_eq!(
        parse_command("/FULL 5 hello -world"),
        Command::Full { num: 5, pkgs: strings(&["hello", "-world"]) }
    );
    assert_eq!(parse_command("/full"), Command::Ignored);
    assert_eq!(parse_command("/full abc"), Command::Ignored);
}

#[test]
fn message_is_read_line_by_line() {
    assert_eq!(
        parse_message("/start\n/full 7\nfoo\n"),
        vec![
            Command::Start,
            Command::Full { num: 7, pkgs: vec![] },
            Command::Unknown,
            Command::Unknown,
        ]
    );
    assert_eq!(parse_message("/status"), vec![Command::Status]);
}

#[test]
fn changed_packages_compares_output_paths() {
    let before = "hello /nix/store/a-hello\nfoo /nix/store/b-foo\nmulti out=/nix/store/c dev=/nix/store/d\n";
    let after = "hello /nix/store/a-hello\nfoo /nix/store/e-foo\nbar /nix/store/f-bar\nmulti  out=/nix/store/c   dev=/nix/store/d\n";
    assert_eq!(changed_packages(before, after), strings(&["foo", "bar"]));
    assert_eq!(changed_packages("", "x /p\n\nlonely\n"), strings(&["x"]));
    assert_eq!(changed_packages(after, after), Vec::<String>::new());
}

#[test]
fn full_build_list() {
    assert_eq!(
        full_packages_to_build(&strings(&["zz", "-bar"]), &strings(&["foo", "bar", "foo"])),
        strings(&["foo", "zz"])
    );
}

#[test]
fn remove_string_item_removes_first_match_only() {
    let mut v = strings(&["a", "b", "a"]);
    assert_eq!(remove_string_item(&mut v, "a"), Some("a".to_string()));
    assert_eq!(v, strings(&["b", "a"]));
    assert_eq!(remove_string_item(&mut v, "c"), None);
    assert_eq!(v, strings(&["b", "a"]));
}

#[test]
fn start_text_names_description_and_contact() {
    let t = start_text("Alice", "nixpkgs master");
    assert!(t.starts_with("This bot allows you to build nixpkgs PRs.\nUsage: /pr <number>"));
    assert!(!t.contains("/full"));
    assert!(t.ends_with("cherry-picking their commits on nixpkgs master.\nPing Alice if you have trouble."));
}

#[test]
fn notices() {
    assert_eq!(notice_text(7, &Notice::UnsupportedBase), "🛑 PR does not target master/staging/staging-next");
    assert_eq!(notice_text(7, &Notice::TooManyRunning), "🤖 too many PRs already running");
    assert_eq!(notice_text(7, &Notice::AlreadyRunning), "🤖 already processing that PR");
    assert_eq!(notice_text(7, &Notice::Fetching), "⏳ PR 7, fetching ...");
    assert_eq!(
        notice_text(12, &Notice::Changes(strings(&["abc foo: 1", "def bar: 2"]))),
        "⏳ PR 12, changes:\nabc foo: 1\ndef bar: 2"
    );
    assert_eq!(
        notice_text(12, &Notice::Building(strings(&["bar", "foo"]))),
        "⏳ PR 12, building: bar foo"
    );
    assert_eq!(
        notice_text(3, &Notice::Conflict { id: "abc".to_string(), url: "https://p/x".to_string() }),
        "😢 PR 3, cherry-pick of abc failed\n👉 Conflict: https://p/x"
    );
    assert_eq!(notice_text(3, &Notice::BuildFailed), "💥 PR 3, build failed");
    assert_eq!(
        notice_text(3, &Notice::BuildFailedLog { url: "https://p/y".to_string() }),
        "💥 PR 3, build failed\n👉 Full log: https://p/y"
    );
}

#[test]
fn refusal_notices() {
    assert_eq!(notice_text(1, &refusal_notice(Refusal::UnsupportedBase)), "🛑 PR does not target master/staging/staging-next");
    assert_eq!(notice_text(1, &refusal_notice(Refusal::TooManyRunning)), "🤖 too many PRs already running");
    assert_eq!(notice_text(1, &refusal_notice(Refusal::AlreadyRunning)), "🤖 already processing that PR");
}

#[test]
fn conflict_log_and_progress() {
    assert_eq!(
        conflict_log_text("o", "e", "d"),
        "git cherry-pick standard output:\no\ngit cherry-pick standard error:\ne\ngit diff output:\nd"
    );
    let mut p = "⏳ PR 1, fetching ...".to_string();
    extend_progress(&mut p, "next");
    assert_eq!(p, "⏳ PR 1, fetching ...\nnext");
}

fn drive(events: &[PrEvent]) -> Vec<PrAction> {
    let mut run = PrRun::new();
    let mut actions = Vec::new();
    for e in events {
        let (next, a) = pr_step(run, *e);
        run = next;
        actions.push(a);
    }
    actions
}

#[test]
fn build_steps_in_order() {
    let actions = drive(&[
        PrEvent::Start,
        PrEvent::Base(true),
        PrEvent::Admission(Admission::Admitted),
        PrEvent::Commits(2),
        PrEvent::Done,
        PrEvent::Picked(CherryPick::MergeCommit),
        PrEvent::Picked(CherryPick::Applied),
        PrEvent::Done,
        PrEvent::Done,
        PrEvent::Done,
        PrEvent::Done,
    ]);
    assert_eq!(
        actions,
        vec![
            PrAction::FetchBase,
            PrAction::RequestAdmission,
            PrAction::Prepare,
            PrAction::ShowChanges,
            PrAction::Pick(0),
            PrAction::Pick(1),
            PrAction::CollectPackages,
            PrAction::ShowBuilding,
            PrAction::RunBuild(true),
            PrAction::RemoveWorktree,
            PrAction::Finish,
        ]
    );
}

#[test]
fn conflict_stops_cherry_picks_and_build() {
    let actions = drive(&[
        PrEvent::Start,
        PrEvent::Base(true),
        PrEvent::Admission(Admission::Admitted),
        PrEvent::Commits(3),
        PrEvent::Done,
        PrEvent::Picked(CherryPick::Conflict),
        PrEvent::Done,
        PrEvent::Done,
        PrEvent::Done,
    ]);
    assert_eq!(
        actions,
        vec![
            PrAction::FetchBase,
            PrAction::RequestAdmission,
            PrAction::Prepare,
            PrAction::ShowChanges,
            PrAction::Pick(0),
            PrAction::ReportConflict(0),
            PrAction::CollectPackages,
            PrAction::RemoveWorktree,
            PrAction::Finish,
        ]
    );
}

#[test]
fn refusals_end_the_build() {
    assert_eq!(
        drive(&[PrEvent::Start, PrEvent::Base(false), PrEvent::Done]),
        vec![PrAction::FetchBase, PrAction::Refuse(Refusal::UnsupportedBase), PrAction::Finish]
    );
    assert_eq!(
        drive(&[PrEvent::Start, PrEvent::Base(true), PrEvent::Admission(Admission::AlreadyRunning)]),
        vec![PrAction::FetchBase, PrAction::RequestAdmission, PrAction::Refuse(Refusal::AlreadyRunning)]
    );
    assert_eq!(
        drive(&[PrEvent::Start, PrEvent::Base(true), PrEvent::Admission(Admission::TooManyRunning)]),
        vec![PrAction::FetchBase, PrAction::RequestAdmission, PrAction::Refuse(Refusal::TooManyRunning)]
    );
    let (run, _) = pr_step(PrRun::new(), PrEvent::Base(false));
    assert_eq!(run.stage, Stage::Finished);
}

#[test]
fn no_commits_goes_straight_to_packages() {
    assert_eq!(
        drive(&[
            PrEvent::Start,
            PrEvent::Base(true),
            PrEvent::Admission(Admission::Admitted),
            PrEvent::Commits(0),
            PrEvent::Done,
        ]),
        vec![
            PrAction::FetchBase,
            PrAction::RequestAdmission,
            PrAction::Prepare,
            PrAction::ShowChanges,
            PrAction::CollectPackages,
        ]
    );
}

#[test]
fn start_text_is_exact() {
    assert_eq!(
        start_text("Bob", "a recent master"),
        "This bot allows you to build nixpkgs PRs.\nUsage: /pr <number> <packages> -<exclude packages>\nYou can also just send the PR as URL. Packages is a space seperated list of additional packages to build. You can exclude certain packages by prefixing them with -.\nPRs are tested by cherry-picking their commits on a recent master.\nPing Bob if you have trouble."
    );
}

#[test]
fn raw_outputs_are_decoded_lossily() {
    assert_eq!(
        conflict_log_of_output(b"o\xff", b"e", b"d"),
        "git cherry-pick standard output:\no\u{fffd}\ngit cherry-pick standard error:\ne\ngit diff output:\nd"
    );
    assert_eq!(classify_cherry_pick_output(false, b"error: commit abc is a merge"), CherryPick::MergeCommit);
    assert_eq!(classify_cherry_pick_output(false, b"conflict"), CherryPick::Conflict);
    assert_eq!(classify_cherry_pick_output(true, b""), CherryPick::Applied);
    assert_eq!(
        changed_packages_of_output(b"a /p\n", b"a /q\nb /r\n"),
        strings(&["a", "b"])
    );
    let store = "/nix/store/0123456789abcdef0123456789abcdef-";
    let out = format!("{store}hello-2.12 {store}undefined-variable-foo\n");
    assert_eq!(
        success_reply_of_output(4, out.as_bytes(), false),
        Some("✅ PR 4, built hello-2.12\n⚠️ Undefined variables: foo".to_string())
    );
}

#[test]
fn paste_titles() {
    assert_eq!(conflict_paste_title_of(17), "PR 17 - cherry-pick conflict");
    assert_eq!(build_log_paste_titles(17), ("PR #17 - summary".to_string(), "PR #17".to_string()));
}
