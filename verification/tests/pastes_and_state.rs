use nixpkgs_pr_build_bot::paste_log::{
    annotated_entry_of, builder_failures_of, derivation_paste_title_of, hint_failures_of,
    linked_entry_of, nix_log_target_of, paste_link_from_lookup, paste_link_of, paste_request,
    paste_title_of, PasteLink,
};
use nixpkgs_pr_build_bot::state::{Admission, BotState};

fn strings(v: &[&str]) -> Vec<String> {
    v.iter().map(|s| s.to_string()).collect()
}

#[test]
fn paste_title_notes_full_disk() {
    assert_eq!(
        paste_title_of("PR 1 - summary", "error: No space left on device"),
        "PR 1 - summary - likely out of /tmp space"
    );
    assert_eq!(paste_title_of("PR 1 - summary", "error: other"), "PR 1 - summary");
}

#[test]
fn builder_failures_with_exit_code() {
    let log = "building\nerror: builder for '/nix/store/abc-foo.drv' failed with exit code 1;\n\
               last 10 log lines:\n";
    assert_eq!(builder_failures_of(log), strings(&["'nix log /nix/store/abc-foo.drv'."]));
}

#[test]
fn builder_failures_with_missing_output() {
    let line = "error: builder for '/nix/store/x.drv' failed to produce output path for output 'out'";
    let got = builder_failures_of(line);
    assert_eq!(
        got,
        strings(&[
            "'nix log /nix/store/x.drv' failed to produce output path for output 'out''.",
            line,
            "'nix log /nix/store/x.drv'.",
            "\n",
        ])
    );
}

#[test]
fn no_builder_failures() {
    assert_eq!(builder_failures_of("all fine\n"), Vec::<String>::new());
}

fn hint_log(extra_lines_before: usize) -> String {
    let mut s = String::new();
    for i in 0..extra_lines_before {
        s += &format!("noise {i}\n");
    }
    for i in 0..24 {
        s += &format!("       > build line {i}\n");
    }
    s += "\n";
    s += "       For full logs, run 'nix log /nix/store/abc-foo.drv'.\n";
    s
}

#[test]
fn hint_failures_in_long_log() {
    // One non-excerpt line first, then 24 excerpt lines (26 non-empty lines end at the hint).
    let log = hint_log(2);
    let got = hint_failures_of(&log).unwrap();
    let mut expected: Vec<String> = (0..24).map(|i| format!("build line {i}")).collect();
    expected.push("'nix log /nix/store/abc-foo.drv'.".to_string());
    expected.push("\n".to_string());
    assert_eq!(got, expected);
}

#[test]
fn hint_failures_in_short_log() {
    let log = "       > oops\n      For full logs, run 'nix log /nix/store/x.drv'.";
    assert_eq!(
        hint_failures_of(log),
        Some(strings(&["oops", "'nix log /nix/store/x.drv'.", "\n"]))
    );
    assert_eq!(hint_failures_of("just text"), Some(Vec::new()));
}

#[test]
fn hint_failures_of_empty_log_is_refused() {
    assert_eq!(hint_failures_of(""), None);
    assert_eq!(hint_failures_of("\n\n"), None);
}

#[test]
fn nix_log_targets() {
    assert_eq!(
        nix_log_target_of("'nix log /nix/store/x.drv'."),
        Some("/nix/store/x.drv".to_string())
    );
    assert_eq!(nix_log_target_of("\n"), None);
    assert_eq!(nix_log_target_of("'nix log /nix/store/x.drv'"), None);
}

#[test]
fn derivation_paste_titles() {
    assert_eq!(
        derivation_paste_title_of("PR #5", "/nix/store/0123456789abcdfghijklmnpqrsvwxyz-hello-2.12.drv"),
        Some("PR #5 - hello-2.12".to_string())
    );
    assert_eq!(derivation_paste_title_of("PR #5", "/nix/store/short.drv"), None);
    assert_eq!(derivation_paste_title_of("PR #5", "abc"), None);
}

#[test]
fn entries_link_to_their_logs() {
    assert_eq!(
        linked_entry_of("'nix log /nix/store/x.drv'.", "https://paste.example/abc"),
        "'nix log /nix/store/x.drv': https://paste.example/abc"
    );
    assert_eq!(linked_entry_of("", "u"), ": u");
}

#[test]
fn annotated_entry_quotes_last_25_lines() {
    let mut log = String::new();
    for i in 0..30 {
        log += &format!("l{i}\n");
    }
    log += "   \n";
    let got = annotated_entry_of("'nix log x'.", "U", &log);
    let mut expected = "'nix log x': U".to_string();
    for i in 6..30 {
        expected += &format!("\nl{i}");
    }
    expected += "\n\n\n";
    assert_eq!(got, expected);
}

#[test]
fn annotated_entry_with_short_or_empty_log() {
    assert_eq!(annotated_entry_of("e.", "U", "a\r\n\nb"), "e: U\na\nb\n\n\n");
    assert_eq!(annotated_entry_of("e.", "U", ""), "e: U");
}

#[test]
fn paste_request_uses_failures_when_found() {
    let r = paste_request("T", "No space left on device", &strings(&["x", "y"]), true);
    assert_eq!(r.title, "T - likely out of /tmp space");
    assert_eq!(r.extension, "log");
    assert_eq!(r.expires, 604800);
    assert_eq!(r.text, "x\ny");
    let r = paste_request("T", "No space left on device", &Vec::new(), false);
    assert_eq!(r.title, "T");
    assert_eq!(r.text, "No space left on device");
}

#[test]
fn paste_request_truncates_long_logs() {
    let text = format!("{}{}", "é", "a".repeat(5_000_000));
    let r = paste_request("T", &text, &Vec::new(), false);
    assert_eq!(r.text.len(), 5_000_000);
    let text = format!("{}{}", "é", "a".repeat(4_999_999));
    let r = paste_request("T", &text, &Vec::new(), false);
    // The cut falls inside the two-byte character, so the text starts after it.
    assert_eq!(r.text.len(), 4_999_999);
}

#[test]
fn paste_links() {
    assert_eq!(
        paste_link_of("https://paste.example", br#"{"path": "/abc"}"#),
        PasteLink::Url("https://paste.example/abc".to_string())
    );
    assert_eq!(paste_link_of("https://p", br#"{"other": 1}"#), PasteLink::NoPath);
    assert_eq!(paste_link_of("https://p", b"oops"), PasteLink::NotJson);
    assert_eq!(paste_link_from_lookup("b", None), PasteLink::NotJson);
}

#[test]
fn admissions_and_status() {
    let mut s = BotState::new(2);
    assert_eq!(s.status_text(), None);
    assert_eq!(s.try_admit(1), Admission::Admitted);
    assert_eq!(s.try_admit(1), Admission::AlreadyRunning);
    assert_eq!(s.try_admit(2), Admission::Admitted);
    assert_eq!(s.try_admit(3), Admission::TooManyRunning);
    s.record_building(1, strings(&["a", "b"]));
    assert_eq!(s.status_text(), Some("PR 1: a b".to_string()));
    s.record_building(2, strings(&["c"]));
    let status = s.status_text().unwrap();
    assert!(status == "PR 1: a b\nPR 2: c" || status == "PR 2: c\nPR 1: a b", "{status}");
    s.record_building(1, strings(&["d"]));
    let status = s.status_text().unwrap();
    assert!(status == "PR 2: c\nPR 1: d" || status == "PR 1: d\nPR 2: c", "{status}");
    s.finish(1, true);
    assert_eq!(s.status_text(), Some("PR 2: c".to_string()));
    assert_eq!(s.try_admit(3), Admission::Admitted);
}

#[test]
fn no_double_admission_on_concrete_values() {
    let mut s = BotState::new(5);
    assert_eq!(s.try_admit(42), Admission::Admitted);
    assert_eq!(s.try_admit(42), Admission::AlreadyRunning);
    s.finish(42, true);
    assert_eq!(s.try_admit(42), Admission::Admitted);
}

#[test]
fn refused_duplicate_still_clears_the_number() {
    // The handling of the refused duplicate ends too, without a slot of its own.
    let mut s = BotState::new(1);
    assert_eq!(s.try_admit(7), Admission::Admitted);
    assert_eq!(s.try_admit(7), Admission::TooManyRunning);
    s.finish(7, false);
    assert_eq!(s.try_admit(7), Admission::TooManyRunning);
    s.finish(7, true);
    assert_eq!(s.try_admit(7), Admission::Admitted);
}

#[test]
fn status_with_empty_package_list() {
    let mut s = BotState::new(1);
    assert_eq!(s.try_admit(9), Admission::Admitted);
    s.record_building(9, Vec::new());
    assert_eq!(s.status_text(), Some("PR 9: ".to_string()));
}

#[test]
fn one_build_at_a_time_on_the_checkout() {
    let mut s = BotState::new(3);
    assert!(s.try_enter_git(1));
    assert!(!s.try_enter_git(2));
    assert!(!s.try_enter_git(1));
    s.leave_git(2);
    assert!(!s.try_enter_git(2));
    s.leave_git(1);
    assert!(s.try_enter_git(2));
}
