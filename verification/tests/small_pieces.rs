//! Paths, time spans and the history in a tie-off file.

use knot::paths::{file_name_of, join_path, parent_of, same_path};
use knot::tie_off_history::extract_last_n;
use knot::time::TimeSpan;

#[test]
fn file_names() {
    assert_eq!(file_name_of("/a/b.md").as_deref(), Some("b.md"));
    assert_eq!(file_name_of("b.md").as_deref(), Some("b.md"));
    assert_eq!(file_name_of("/a/b/").as_deref(), Some("b"));
    assert_eq!(file_name_of("/"), None);
    assert_eq!(file_name_of(""), None);
    assert_eq!(file_name_of("a/.."), None);
}

#[test]
fn parents() {
    assert_eq!(parent_of("/work/rig").as_deref(), Some("/work"));
    assert_eq!(parent_of("rig").as_deref(), Some(""));
    assert_eq!(parent_of("/rig").as_deref(), Some("/"));
    assert_eq!(parent_of("/"), None);
    assert_eq!(parent_of(""), None);
}

#[test]
fn joined_paths() {
    assert_eq!(join_path("/work", "strands"), "/work/strands");
    assert_eq!(join_path("/work/", "strands"), "/work/strands");
    assert_eq!(join_path("/work", "/strands"), "/strands");
    assert_eq!(join_path("", "strands"), "strands");
    assert_eq!(file_name_of(&join_path("/work", "a.md")).as_deref(), Some("a.md"));
}

#[test]
fn paths_are_the_same_by_their_components() {
    assert!(same_path("/a/b", "/a/b/"));
    assert!(same_path("a//b", "a/b"));
    assert!(same_path("a/./b", "a/b"));
    assert!(!same_path("/a/b", "a/b"));
    assert!(!same_path("a/../b", "b"));
    assert!(!same_path("./a", "a"));
}

#[test]
fn spans_are_written_with_their_unit() {
    assert_eq!(TimeSpan::from_secs(60).render(), "60s");
    assert_eq!(TimeSpan::from_millis(1500).render(), "1.5s");
    assert_eq!(TimeSpan::from_millis(100).render(), "100ms");
    assert_eq!(TimeSpan::from_millis(0).render(), "0ns");
    assert_eq!(TimeSpan { nanos: 2_500 }.render(), "2.5\u{b5}s");
    assert_eq!(TimeSpan { nanos: 7 }.render(), "7ns");
}

#[test]
fn spans_subtract_and_cap() {
    let ten = TimeSpan::from_secs(10);
    let three = TimeSpan::from_secs(3);
    assert_eq!(ten.saturating_sub(three), TimeSpan::from_secs(7));
    assert_eq!(three.saturating_sub(ten), TimeSpan::from_secs(0));
    assert_eq!(ten.at_most(three), three);
    assert_eq!(three.at_most(ten), three);
    assert_eq!(TimeSpan::from_millis(2999).as_secs(), 2);
}

fn section(knot: &str, event: &str, strand: &str, body: &str) -> String {
    format!("## {knot} triggered by {event} {strand}\nTimestamp: 2026-06-05T10:00:00Z\n---\n{body}")
}

#[test]
fn history_is_of_one_strand_and_no_longer_than_asked() {
    let content = vec![
        section("review", "Created", "a.md", "first"),
        section("review", "Created", "b.md", "other"),
        section("review", "Modified", "a.md", "second\nline"),
        section("review", "Modified", "a.md", "third"),
    ]
    .join("\n---\n");

    let all = extract_last_n(&content, "a.md", 5);
    let bodies: Vec<&str> = all.iter().map(|s| s.body.as_str()).collect();
    assert_eq!(bodies, vec!["first", "second\nline", "third"]);

    let last = extract_last_n(&content, "a.md", 2);
    let bodies: Vec<&str> = last.iter().map(|s| s.body.as_str()).collect();
    assert_eq!(bodies, vec!["second\nline", "third"]);

    assert!(extract_last_n(&content, "c.md", 5).is_empty());
    assert!(extract_last_n(&content, "a.md", 0).is_empty());
    assert!(extract_last_n("", "a.md", 5).is_empty());
}
