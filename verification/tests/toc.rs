use leaf_core::toc::{
    normalize_toc, should_hide_single_h1, should_promote_h2_when_no_h1, toc_display_level, TocEntry,
};

fn toc(levels: &[u8]) -> Vec<TocEntry> {
    levels
        .iter()
        .enumerate()
        .map(|(i, &l)| TocEntry::new(l, format!("h{}", i), i * 10))
        .collect()
}

fn levels(entries: &[TocEntry]) -> Vec<u8> {
    entries.iter().map(|e| e.level).collect()
}

#[test]
fn single_h1_with_h2_is_hidden() {
    let t = toc(&[1, 2, 3, 4]);
    assert!(should_hide_single_h1(&t));
    assert!(!should_promote_h2_when_no_h1(&t));
    assert_eq!(levels(&normalize_toc(t)), vec![1, 2, 3]);
}

#[test]
fn h2_promoted_without_h1() {
    let t = toc(&[2, 3, 4, 2]);
    assert!(!should_hide_single_h1(&t));
    assert!(should_promote_h2_when_no_h1(&t));
    let out = normalize_toc(t);
    assert_eq!(levels(&out), vec![2, 3, 2]);
    assert_eq!(out[1].title, "h1");
    assert_eq!(out[1].line, 10);
}

#[test]
fn two_h1s_keep_two_levels() {
    let t = toc(&[1, 2, 1, 3]);
    assert!(!should_hide_single_h1(&t));
    assert!(!should_promote_h2_when_no_h1(&t));
    assert_eq!(levels(&normalize_toc(t)), vec![1, 2, 1]);
}

#[test]
fn empty_outline_stays_empty() {
    let t = toc(&[]);
    assert!(!should_hide_single_h1(&t));
    assert!(!should_promote_h2_when_no_h1(&t));
    assert!(normalize_toc(t).is_empty());
}

#[test]
fn normalizing_twice_changes_nothing() {
    let once = normalize_toc(toc(&[1, 2, 3, 4, 6, 2]));
    let first = levels(&once);
    let twice = normalize_toc(once);
    assert_eq!(levels(&twice), first);
}

#[test]
fn display_levels() {
    assert_eq!(toc_display_level(2, true, false), 1);
    assert_eq!(toc_display_level(3, false, true), 2);
    assert_eq!(toc_display_level(1, true, true), 1);
    assert_eq!(toc_display_level(4, true, false), 4);
    assert_eq!(toc_display_level(3, false, false), 3);
}
