use leaf_core::theme::{choose_syntax_theme, FALLBACK_SYNTAX_THEME};

fn names(list: &[&str]) -> Vec<String> {
    list.iter().map(|n| n.to_string()).collect()
}

#[test]
fn wanted_theme_is_used_when_loaded() {
    let loaded = names(&["InspiredGitHub", "base16-ocean.dark", "Solarized (dark)"]);
    assert_eq!(choose_syntax_theme(&loaded, "Solarized (dark)"), Some(2));
}

#[test]
fn fallback_theme_replaces_a_missing_one() {
    let loaded = names(&["InspiredGitHub", "base16-ocean.dark", "Solarized (dark)"]);
    assert_eq!(choose_syntax_theme(&loaded, "no such theme"), Some(1));
    assert_eq!(FALLBACK_SYNTAX_THEME, "base16-ocean.dark");
}

#[test]
fn first_theme_when_neither_is_loaded() {
    let loaded = names(&["InspiredGitHub", "Solarized (dark)"]);
    assert_eq!(choose_syntax_theme(&loaded, "missing"), Some(0));
}

#[test]
fn no_theme_when_none_is_loaded() {
    assert_eq!(choose_syntax_theme(&[], "base16-ocean.dark"), None);
}

#[test]
fn a_name_that_only_begins_like_a_theme_is_not_it() {
    let loaded = names(&["base16-ocean", "base16-ocean.dark"]);
    assert_eq!(choose_syntax_theme(&loaded, "base16-ocean.dark.extra"), Some(1));
    assert_eq!(choose_syntax_theme(&loaded, "base16-ocean"), Some(0));
}
