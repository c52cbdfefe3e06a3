use nixpkgs_pr_build_bot::packages::{
    commit_id, commit_lines_of, expand_requested, finalize_packages, packages_from_commits,
    packages_to_build,
};
use nixpkgs_pr_build_bot::VecRemoveItem;

fn strings(v: &[&str]) -> Vec<String> {
    v.iter().map(|s| s.to_string()).collect()
}

#[test]
fn requested_names_are_brace_expanded() {
    let got = expand_requested(&strings(&["hello", "foo{a,b}", "x.override { a = 1; }"]));
    assert_eq!(got, Some(strings(&["hello", "fooa", "foob", "x.override { a = 1; }"])));
}

#[test]
fn nested_brace_expansion_keeps_bash_order() {
    let got = expand_requested(&strings(&["{hello,goodbye} {world,my {friends,colleagues}}"]));
    assert_eq!(
        got,
        Some(strings(&[
            "hello world",
            "hello my friends",
            "hello my colleagues",
            "goodbye world",
            "goodbye my friends",
            "goodbye my colleagues",
        ]))
    );
}

#[test]
fn unclosed_list_with_comma_is_refused() {
    assert_eq!(expand_requested(&strings(&["ok", "{a,b"])), None);
}

#[test]
fn unclosed_list_without_comma_expands() {
    assert_eq!(expand_requested(&strings(&["{abc"])), Some(strings(&["abc"])));
}

#[test]
fn escaped_braces_are_literal() {
    assert_eq!(expand_requested(&strings(&["a\\{b\\}"])), Some(strings(&["a{b}"])));
}

#[test]
fn commit_lines_oldest_first() {
    assert_eq!(
        commit_lines_of("b2 second: x\n\na1 first: y\n"),
        strings(&["a1 first: y", "b2 second: x"])
    );
    assert_eq!(commit_lines_of(""), Vec::<String>::new());
}

#[test]
fn commit_id_is_text_before_first_space() {
    assert_eq!(commit_id("abc123 hello: 1.0 -> 2.0"), Some("abc123".to_string()));
    assert_eq!(commit_id("nospace"), None);
}

#[test]
fn packages_named_by_commit_subjects() {
    let lines = strings(&[
        "a1 hello: 1.0 -> 2.0",
        "b2 Revert \"hello: 1.0 -> 2.0\"",
        "c3 python3Packages.{foo,bar}: init",
        "d4 treewide: fix",
        "e5 no colon here",
        "f6 nixos/foo: fix",
        "g7 lib.strings: add",
        "h8 maintainers: add me",
        "i9 two words: x",
        "j0 Merge pull request",
        "k1 -foo: x",
    ]);
    assert_eq!(
        packages_from_commits(&lines),
        Some(strings(&["hello", "python3Packages.foo", "python3Packages.bar"]))
    );
}

#[test]
fn commit_subject_with_endless_expansion_is_refused() {
    assert_eq!(packages_from_commits(&strings(&["a1 {x,y: init"])), None);
}

#[test]
fn final_list_sorts_dedups_and_excludes() {
    let got = finalize_packages(&strings(&["b", "a", "-c", "c", "a", "d", "-e", "--x", "-x"]));
    assert_eq!(got, strings(&["a", "b", "d"]));
}

#[test]
fn final_list_orders_by_code_point() {
    let got = finalize_packages(&strings(&["zz", "Zz", "é", "a", "ab", "aB"]));
    assert_eq!(got, strings(&["Zz", "a", "aB", "ab", "zz", "é"]));
}

#[test]
fn final_list_is_idempotent() {
    let once = finalize_packages(&strings(&["c", "-a", "a", "b", "b", "-z"]));
    let twice = finalize_packages(&once);
    assert_eq!(once, twice);
    assert_eq!(once, strings(&["b", "c"]));
}

#[test]
fn final_list_ignores_order_and_repetition() {
    let x = finalize_packages(&strings(&["c", "a", "-b", "b"]));
    let y = finalize_packages(&strings(&["b", "-b", "a", "c", "a"]));
    assert_eq!(x, y);
}

#[test]
fn packages_to_build_combines_requests_and_commits() {
    let requested = strings(&["zlib", "-hello"]);
    let lines = strings(&["a1 hello: 1.0 -> 2.0", "b2 curl: 8.0 -> 8.1"]);
    assert_eq!(packages_to_build(&requested, &lines), Some(strings(&["curl", "zlib"])));
}

#[test]
fn remove_item_removes_first_match() {
    let mut v = vec![1u32, 2, 3, 2];
    assert_eq!(v.remove_item(2u32), Some(2));
    assert_eq!(v, vec![1, 3, 2]);
    assert_eq!(v.remove_item(9u32), None);
    assert_eq!(v, vec![1, 3, 2]);
}

#[test]
fn remove_item_on_strings() {
    let mut v = strings(&["a", "b"]);
    assert_eq!(v.remove_item("b".to_string()), Some("b".to_string()));
    assert_eq!(v, strings(&["a"]));
}
