use submod::{
    change_report, classify, clone_target, clone_target_from, condition_word, display_change,
    display_name, format_name, initialized_line, listing_line, status_line, Change, Condition,
    Emphasis, EntryState, Line, Tint,
};

fn text(line: &Line) -> String {
    line.spans.iter().map(|s| s.text.as_str()).collect()
}

fn plain() -> Emphasis {
    Emphasis { tint: None, bold: false, dimmed: false }
}

fn bold() -> Emphasis {
    Emphasis { tint: None, bold: true, dimmed: false }
}

#[test]
fn name_after_last_forward_slash() {
    assert_eq!(format_name("libs/foo"), "foo");
    assert_eq!(format_name("a/b/c/deep"), "deep");
}

#[test]
fn name_after_last_backslash() {
    assert_eq!(format_name("libs\\foo"), "foo");
}

#[test]
fn name_after_last_separator_of_either_kind() {
    assert_eq!(format_name("a\\b/c"), "c");
    assert_eq!(format_name("a/b\\c"), "c");
}

#[test]
fn name_without_separator_is_kept() {
    assert_eq!(format_name("vendor"), "vendor");
    assert_eq!(format_name(""), "");
}

#[test]
fn name_ending_in_separator_is_empty() {
    assert_eq!(format_name("a/b/"), "");
    assert_eq!(format_name("a\\"), "");
    assert_eq!(format_name("/"), "");
}

#[test]
fn name_with_non_ascii_text() {
    assert_eq!(format_name("lib/ünïcödé"), "ünïcödé");
}

#[test]
fn display_name_emphasis_follows_existence() {
    let s = display_name("libs/foo", true);
    assert_eq!(s.text, "foo");
    assert_eq!(s.emphasis, Emphasis { tint: Some(Tint::Blue), bold: true, dimmed: false });
    let s = display_name("libs/foo", false);
    assert_eq!(s.text, "foo");
    assert_eq!(s.emphasis, bold());
}

#[test]
fn stale_entry_gives_no_line() {
    let c = Change::Modification { path: "src/a.rs".to_string(), state: EntryState::NeedsUpdate };
    assert!(display_change(&c).is_none());
}

#[test]
fn rename_line_is_source_arrow_destination() {
    let c = Change::Rewrite { source: "old.rs".to_string(), destination: "new.rs".to_string() };
    let l = display_change(&c).unwrap();
    assert_eq!(text(&l), "    old.rs -> new.rs");
    assert_eq!(l.spans[1].text, "old.rs");
    assert_eq!(l.spans[1].emphasis, bold());
    assert_eq!(l.spans[2].emphasis, plain());
    assert_eq!(l.spans[3].text, "new.rs");
    assert_eq!(l.spans[3].emphasis, bold());
}

#[test]
fn conflict_and_modification_differ() {
    let c = Change::Modification { path: "a".to_string(), state: EntryState::Conflict };
    let l = display_change(&c).unwrap();
    assert_eq!(text(&l), "    a");
    assert_eq!(l.spans[1].emphasis, Emphasis { tint: Some(Tint::Red), bold: true, dimmed: false });
    for state in [EntryState::Change, EntryState::IntentToAdd] {
        let c = Change::Modification { path: "a".to_string(), state };
        let l = display_change(&c).unwrap();
        assert_eq!(text(&l), "    a");
        assert_eq!(
            l.spans[1].emphasis,
            Emphasis { tint: Some(Tint::Yellow), bold: true, dimmed: false }
        );
    }
}

#[test]
fn untracked_is_red() {
    let c = Change::Untracked { path: "new/file".to_string() };
    let l = display_change(&c).unwrap();
    assert_eq!(text(&l), "    new/file");
    assert_eq!(l.spans[1].emphasis, Emphasis { tint: Some(Tint::Red), bold: false, dimmed: false });
}

#[test]
fn report_of_no_changes_is_empty() {
    assert!(change_report(&Vec::new()).is_empty());
}

#[test]
fn report_has_header_and_skips_stale_entries() {
    let changes = vec![
        Change::Untracked { path: "u".to_string() },
        Change::Modification { path: "s".to_string(), state: EntryState::NeedsUpdate },
        Change::Rewrite { source: "x".to_string(), destination: "y".to_string() },
    ];
    let lines = change_report(&changes);
    let texts: Vec<String> = lines.iter().map(text).collect();
    assert_eq!(texts, vec!["  changes:", "    u", "    x -> y"]);
}

#[test]
fn report_of_only_stale_entries_keeps_header() {
    let changes =
        vec![Change::Modification { path: "s".to_string(), state: EntryState::NeedsUpdate }];
    let texts: Vec<String> = change_report(&changes).iter().map(text).collect();
    assert_eq!(texts, vec!["  changes:"]);
}

#[test]
fn classification_covers_every_case() {
    assert_eq!(classify(Some(true), true), Condition::Dirty);
    assert_eq!(classify(Some(false), true), Condition::Clean);
    assert_eq!(classify(None, true), Condition::Unknown);
    assert_eq!(classify(None, false), Condition::Uninitialized);
}

#[test]
fn condition_words() {
    let w = condition_word(Condition::Dirty);
    assert_eq!(w.text, "dirty");
    assert_eq!(w.emphasis, Emphasis { tint: Some(Tint::Yellow), bold: true, dimmed: false });
    let w = condition_word(Condition::Clean);
    assert_eq!(w.text, "clean");
    assert_eq!(w.emphasis, Emphasis { tint: Some(Tint::Green), bold: true, dimmed: false });
    let w = condition_word(Condition::Unknown);
    assert_eq!(w.text, "unknown");
    assert_eq!(w.emphasis, bold());
    let w = condition_word(Condition::Uninitialized);
    assert_eq!(w.text, "uninitialized");
    assert_eq!(w.emphasis, Emphasis { tint: None, bold: true, dimmed: true });
}

#[test]
fn status_line_text() {
    let l = status_line("libs/foo", "libs/foo", true, Some(false));
    assert_eq!(text(&l), "foo libs/foo clean");
    assert_eq!(l.spans[2].emphasis, Emphasis { tint: None, bold: false, dimmed: true });
    let l = status_line("vendor", "third/vendor", false, None);
    assert_eq!(text(&l), "vendor third/vendor uninitialized");
}

#[test]
fn listing_line_text() {
    let l = listing_line("libs/foo", "libs/foo", false);
    assert_eq!(text(&l), "foo libs/foo");
    assert_eq!(l.spans.len(), 3);
}

#[test]
fn initialized_line_text() {
    let l = initialized_line("libs/foo", "libs/foo", true);
    assert_eq!(text(&l), "initialized foo at libs/foo");
    assert_eq!(l.spans[6].emphasis, Emphasis { tint: None, bold: true, dimmed: true });
}

#[test]
fn target_given_path_wins() {
    let r = clone_target_from(Some("here".to_string()), Some("github.com"), "/u/r.git");
    assert_eq!(r.as_deref(), Some("here"));
}

#[test]
fn target_from_github_path() {
    assert_eq!(clone_target_from(None, Some("github.com"), "/u/repo.git").as_deref(), Some("repo"));
    assert_eq!(clone_target_from(None, Some("github.com"), "/u/repo").as_deref(), Some("repo"));
    assert_eq!(
        clone_target_from(None, Some("github.com"), "/u/repo.git.git").as_deref(),
        Some("repo")
    );
    assert_eq!(clone_target_from(None, Some("github.com"), "repo"), None);
}

#[test]
fn target_unknown_for_other_hosts() {
    assert_eq!(clone_target_from(None, Some("gitlab.com"), "/u/repo.git"), None);
    assert_eq!(clone_target_from(None, None, "/u/repo.git"), None);
}

#[test]
fn target_from_parsed_url() {
    let r = clone_target("https://github.com/user/project.git", None).unwrap();
    assert_eq!(r.as_deref(), Some("project"));
    let r = clone_target("https://example.org/user/project.git", None).unwrap();
    assert_eq!(r, None);
    let r = clone_target("https://example.org/user/project.git", Some("dest".to_string())).unwrap();
    assert_eq!(r.as_deref(), Some("dest"));
}

#[test]
fn target_from_scp_like_github_url() {
    let r = clone_target("git@github.com:user/project.git", None).unwrap();
    assert_eq!(r.as_deref(), Some("project"));
}

#[test]
fn target_of_url_without_repository_path_is_error() {
    assert!(clone_target("ssh://github.com", None).is_err());
}
