use themester::random::RandomSource;
use themester::select::{select, select_indexed, RETRY_BUDGET};
use themester::theme::Theme;

fn theme(term: &str, plugin: Option<&str>, name: &str) -> Theme {
    Theme {
        term: term.to_string(),
        nvim_plugin: plugin.map(|p| p.to_string()),
        nvim_themename: name.to_string(),
    }
}

fn pair_catalog() -> Vec<Theme> {
    vec![
        theme("nordfox", Some("nordic"), "nordic"),
        theme("tokyonight-night", Some("tokyonight"), "tokyonight-night"),
    ]
}

#[test]
fn no_active_term_returns_drawn_member() {
    let catalog = pair_catalog();
    let mut source = RandomSource::scripted(vec![1]);
    let chosen = select(&catalog, &None, &mut source, RETRY_BUDGET);
    let t = chosen.expect("a non-empty catalog with no active term must yield a theme");
    assert_eq!(t.term, "tokyonight-night");
    assert_eq!(t.nvim_themename, "tokyonight-night");
    assert_eq!(t.nvim_plugin.as_deref(), Some("tokyonight"));
}

#[test]
fn active_term_is_avoided_within_budget() {
    let catalog = pair_catalog();
    let mut source = RandomSource::scripted(vec![0, 0, 1]);
    let chosen = select(&catalog, &Some("nordfox".to_string()), &mut source, RETRY_BUDGET);
    let t = chosen.expect("a differing draw within the budget must yield a theme");
    assert_eq!(t.term, "tokyonight-night");
}

#[test]
fn single_theme_catalog_always_gives_up() {
    let catalog = vec![theme("nordfox", Some("nordic"), "nordic")];
    let mut source = RandomSource::scripted(vec![0; 10]);
    let chosen = select(&catalog, &Some("nordfox".to_string()), &mut source, RETRY_BUDGET);
    assert!(chosen.is_none());
}

#[test]
fn empty_catalog_yields_none_without_drawing() {
    let catalog: Vec<Theme> = Vec::new();
    let mut source = RandomSource::scripted(vec![1]);
    let chosen = select(&catalog, &None, &mut source, RETRY_BUDGET);
    assert!(chosen.is_none());
    // The scripted draw is still there: selection never touched the source.
    assert_eq!(source.draw(2), 1);
}

#[test]
fn budget_is_exactly_ten_draws() {
    let catalog = pair_catalog();
    // Ten draws hit the active theme; the eleventh would differ but is
    // never made: the configured budget has been exhausted.
    let mut draws = vec![0; 10];
    draws.push(1);
    let mut source = RandomSource::scripted(draws);
    let chosen = select(&catalog, &Some("nordfox".to_string()), &mut source, RETRY_BUDGET);
    assert!(chosen.is_none());
}

#[test]
fn duplicate_terms_resolve_to_first_match() {
    let catalog = vec![
        theme("shared", Some("first-plugin"), "first-name"),
        theme("shared", Some("second-plugin"), "second-name"),
    ];
    let mut source = RandomSource::scripted(vec![1]);
    let chosen = select(&catalog, &None, &mut source, RETRY_BUDGET);
    let t = chosen.expect("a non-empty catalog with no active term must yield a theme");
    // The draw landed on the second entry, but the first entry bearing
    // the drawn term is authoritative.
    assert_eq!(t.nvim_themename, "first-name");
    assert_eq!(t.nvim_plugin.as_deref(), Some("first-plugin"));
}

#[test]
fn indexed_selection_reduces_draws_modulo_length() {
    let catalog = pair_catalog();
    let chosen = select_indexed(&catalog, &None, &vec![3], RETRY_BUDGET);
    let t = chosen.expect("a non-empty catalog with no active term must yield a theme");
    // 3 modulo a catalog of 2 lands on entry 1.
    assert_eq!(t.term, "tokyonight-night");
}

#[test]
fn system_source_draws_stay_in_range() {
    let mut source = RandomSource::system();
    for _ in 0..50 {
        assert!(source.draw(3) < 3);
    }
    assert_eq!(source.draw(1), 0);
}

#[test]
fn system_source_selects_catalog_member() {
    let catalog = pair_catalog();
    let mut source = RandomSource::system();
    let chosen = select(&catalog, &None, &mut source, RETRY_BUDGET);
    let t = chosen.expect("a non-empty catalog with no active term must yield a theme");
    assert!(t.term == "nordfox" || t.term == "tokyonight-night");
}
