use nixpkgs_pr_build_bot::pr_build::{
    base_ref_from_lookup, classify_cherry_pick, failure_report, is_supported_base, nix_args,
    pr_base_ref, report_for_text, success_reply, worktree_dir_of, CherryPick, FailureReport,
};

fn strings(v: &[&str]) -> Vec<String> {
    v.iter().map(|s| s.to_string()).collect()
}

#[test]
fn base_ref_read_from_response() {
    assert_eq!(
        pr_base_ref(br#"{"number": 1, "base": {"ref": "master", "sha": "x"}}"#),
        Some("master".to_string())
    );
    assert_eq!(
        pr_base_ref(br#"{"base": {"ref": "release-24.05"}}"#),
        Some("release-24.05".to_string())
    );
}

#[test]
fn missing_base_ref_counts_as_release_branch() {
    assert_eq!(pr_base_ref(br#"{"message": "Not Found"}"#), Some("release-".to_string()));
    assert_eq!(pr_base_ref(br#"{"base": {"ref": 5}}"#), Some("release-".to_string()));
}

#[test]
fn response_that_is_not_json_is_an_error() {
    assert_eq!(pr_base_ref(b"<html>rate limited</html>"), None);
}

#[test]
fn base_ref_from_lookup_results() {
    assert_eq!(base_ref_from_lookup(None), None);
    assert_eq!(base_ref_from_lookup(Some(None)), Some("release-".to_string()));
    assert_eq!(
        base_ref_from_lookup(Some(Some("staging".to_string()))),
        Some("staging".to_string())
    );
}

#[test]
fn supported_base_branches() {
    assert!(is_supported_base("master"));
    assert!(is_supported_base("staging"));
    assert!(is_supported_base("staging-next"));
    assert!(!is_supported_base("release-24.05"));
    assert!(!is_supported_base("release-"));
    assert!(!is_supported_base("Master"));
}

#[test]
fn cherry_pick_outcomes() {
    assert_eq!(classify_cherry_pick(true, ""), CherryPick::Applied);
    assert_eq!(
        classify_cherry_pick(false, "error: commit abc is a merge but no -m option was given."),
        CherryPick::MergeCommit
    );
    assert_eq!(classify_cherry_pick(false, "CONFLICT (content)"), CherryPick::Conflict);
    assert_eq!(
        classify_cherry_pick(false, "use git commit --allow-empty to keep it"),
        CherryPick::Applied
    );
}

#[test]
fn worktree_directory() {
    assert_eq!(worktree_dir_of(123456), "/tmp/nixpkgs-123456");
}

#[test]
fn nix_arguments_with_cores() {
    let got = nix_args("nobody", 6, "/tmp/nixpkgs-1", Some(4), &strings(&["hello", "pkgs.foo"]));
    assert_eq!(
        got,
        strings(&[
            "-S",
            "-u",
            "nobody",
            "--preserve-env=NIXPKGS_ALLOW_UNFREE,NIXPKGS_ALLOW_INSECURE",
            "nix-shell",
            "--run",
            "sh -c 'echo $buildInputs'",
            "-k",
            "-j",
            "6",
            "-I",
            "nixpkgs=/tmp/nixpkgs-1",
            "--cores",
            "4",
            "-p",
            "pkgs.hello or (undefined-variable.override { pname = \"hello\"; })",
            "pkgs.foo",
        ])
    );
}

#[test]
fn nix_arguments_without_cores() {
    let got = nix_args("u", 12, "/t", None, &Vec::new());
    assert_eq!(
        got,
        strings(&[
            "-S",
            "-u",
            "u",
            "--preserve-env=NIXPKGS_ALLOW_UNFREE,NIXPKGS_ALLOW_INSECURE",
            "nix-shell",
            "--run",
            "sh -c 'echo $buildInputs'",
            "-k",
            "-j",
            "12",
            "-I",
            "nixpkgs=/t",
            "-p",
        ])
    );
}

#[test]
fn success_reply_lists_built_and_undefined() {
    let stdout = "/nix/store/0123456789abcdfghijklmnpqrsvwxyz-hello-2.12 \
                  /nix/store/1123456789abcdfghijklmnpqrsvwxyz-undefined-variable-foo\n";
    assert_eq!(
        success_reply(5, stdout, false),
        Some("✅ PR 5, built hello-2.12\n⚠️ Undefined variables: foo".to_string())
    );
}

#[test]
fn success_reply_with_merge_warning() {
    let stdout = "/nix/store/0123456789abcdfghijklmnpqrsvwxyz-curl-8.1\n";
    assert_eq!(
        success_reply(77, stdout, true),
        Some("✅ PR 77, built curl-8.1\n⚠️ PR contains merge commits".to_string())
    );
}

#[test]
fn success_reply_when_nothing_built() {
    assert_eq!(success_reply(5, "\n", false), Some("❓ PR 5, nothing built".to_string()));
    let only_undefined = "/nix/store/1123456789abcdfghijklmnpqrsvwxyz-undefined-variable-foo";
    assert_eq!(
        success_reply(5, only_undefined, false),
        Some("❓ PR 5, nothing built\n⚠️ Undefined variables: foo".to_string())
    );
}

#[test]
fn success_reply_keeps_empty_words() {
    assert_eq!(success_reply(1, "short  ", false), Some("✅ PR 1, built short  ".to_string()));
}

#[test]
fn success_reply_where_slicing_would_panic() {
    // 43 ASCII bytes, then a two-byte character that straddles byte 44.
    let word = format!("{}éxyz", "a".repeat(43));
    assert_eq!(success_reply(1, &word, false), None);
    // Byte 44 on a character boundary is fine.
    let word = format!("{}éxyz", "a".repeat(44));
    assert_eq!(success_reply(1, &word, false), Some("✅ PR 1, built éxyz".to_string()));
}

#[test]
fn short_failure_output_is_inline() {
    let got = failure_report(b"\x1b[31merror\x1b[0m: builder failed\n");
    assert_eq!(got, FailureReport::Inline("error: builder failed\n".to_string()));
}

#[test]
fn long_failure_output_is_pasted() {
    let text = "line\n".repeat(10);
    // Ten line feeds make eleven pieces.
    assert_eq!(report_for_text(text.clone()), FailureReport::Paste(text));
    let text = "line\n".repeat(9) + "last";
    assert_eq!(report_for_text(text.clone()), FailureReport::Inline(text));
}

#[test]
fn invalid_utf8_in_failure_output_is_replaced() {
    let got = failure_report(b"bad \xff byte");
    assert_eq!(got, FailureReport::Inline("bad \u{fffd} byte".to_string()));
}
