use themester::formatting::format_theme;
use themester::operations::{randomize, RandomizeOutcome};
use themester::random::RandomSource;
use themester::reroll::should_auto_reroll;
use themester::select::RETRY_BUDGET;
use themester::theme::{Config, LocalData, Theme};

fn theme(term: &str, plugin: Option<&str>, name: &str) -> Theme {
    Theme {
        term: term.to_string(),
        nvim_plugin: plugin.map(|p| p.to_string()),
        nvim_themename: name.to_string(),
    }
}

fn config_with(themes: Vec<Theme>) -> Config {
    let mut c = Config::default();
    c.theme = themes;
    c
}

fn scenario_catalog() -> Vec<Theme> {
    vec![
        theme("nordfox", Some("nordic"), "nordic"),
        theme("tokyonight-night", Some("tokyonight"), "tokyonight-night"),
    ]
}

const SCENARIO_A_EXPORTS: &str = "export TERM_THEME=\"nordfox\"\nexport NVIM_THEME=\"nordic\"\nexport NVIM_THEME_PLUGIN=\"nordic\"";

#[test]
fn formatting_is_deterministic() {
    let c = config_with(scenario_catalog());
    let t = theme("nordfox", Some("nordic"), "nordic");
    let first = format_theme(&t, &c);
    let second = format_theme(&t, &c);
    assert_eq!(first.export_text, second.export_text);
    assert_eq!(first.term_file_content, second.term_file_content);
}

#[test]
fn formatting_renders_three_quoted_lines() {
    let c = config_with(scenario_catalog());
    let t = theme("nordfox", Some("nordic"), "nordic");
    let out = format_theme(&t, &c);
    assert_eq!(out.export_text, SCENARIO_A_EXPORTS);
    assert_eq!(out.term_file_content.as_deref(), Some("return \"nordfox\""));
}

#[test]
fn formatting_absent_plugin_exports_empty_string() {
    let c = config_with(scenario_catalog());
    let t = theme("plain", None, "plain-scheme");
    let out = format_theme(&t, &c);
    assert_eq!(
        out.export_text,
        "export TERM_THEME=\"plain\"\nexport NVIM_THEME=\"plain-scheme\"\nexport NVIM_THEME_PLUGIN=\"\""
    );
}

#[test]
fn formatting_skips_term_file_when_disabled() {
    let mut c = config_with(scenario_catalog());
    c.write_term_lua = false;
    let out = format_theme(&theme("nordfox", Some("nordic"), "nordic"), &c);
    assert!(out.term_file_content.is_none());
}

#[test]
fn gate_disabled_at_zero_hours() {
    assert!(!should_auto_reroll(0, 0, 0));
    assert!(!should_auto_reroll(0, -5_000, i64::MAX));
    assert!(!should_auto_reroll(0, i64::MIN, 123_456_789));
    assert!(!should_auto_reroll(-3, 0, i64::MAX));
}

#[test]
fn gate_threshold_is_inclusive() {
    let t: i64 = 1_700_000_000;
    assert!(should_auto_reroll(5, t, t + 5 * 3600));
    assert!(!should_auto_reroll(5, t, t + 5 * 3600 - 1));
    assert!(should_auto_reroll(1, t, t + 3600));
    assert!(!should_auto_reroll(1, t, t + 3599));
}

#[test]
fn scenario_first_run_picks_and_renders() {
    let c = config_with(scenario_catalog());
    let mut source = RandomSource::scripted(vec![0]);
    match randomize(&c, &None, &mut source, RETRY_BUDGET) {
        RandomizeOutcome::Chosen(out) => {
            assert_eq!(out.export_text, SCENARIO_A_EXPORTS);
            assert_eq!(out.term_file_content.as_deref(), Some("return \"nordfox\""));
        },
        _ => panic!("expected a chosen theme"),
    }
}

#[test]
fn scenario_stubborn_draws_change_nothing() {
    let c = config_with(scenario_catalog());
    let mut source = RandomSource::scripted(vec![0; 10]);
    match randomize(&c, &Some("nordfox".to_string()), &mut source, RETRY_BUDGET) {
        RandomizeOutcome::NotChanged => {},
        _ => panic!("ten draws of the active theme must leave the theme unchanged"),
    }
}

#[test]
fn scenario_stale_state_forces_reroll() {
    let now: i64 = 1_700_000_000;
    let state = LocalData { last_randomized: now - 25 * 3600 };
    let mut c = config_with(scenario_catalog());
    c.hours_per_randomization = 24;
    assert!(should_auto_reroll(c.hours_per_randomization, state.last_randomized, now));
    let mut source = RandomSource::scripted(vec![1]);
    match randomize(&c, &None, &mut source, RETRY_BUDGET) {
        RandomizeOutcome::Chosen(out) => {
            assert!(out.export_text.contains("tokyonight-night"));
        },
        _ => panic!("the forced reroll must choose a theme"),
    }
}

#[test]
fn scenario_disabled_gate_replays_cache() {
    let now: i64 = 1_700_000_000;
    let state = LocalData { last_randomized: 0 };
    let c = config_with(scenario_catalog());
    assert_eq!(c.hours_per_randomization, 0);
    // However stale the state, a disabled gate never forces a reroll:
    // the caller replays the cache verbatim instead.
    assert!(!should_auto_reroll(c.hours_per_randomization, state.last_randomized, now));
}

#[test]
fn empty_catalog_reports_no_themes() {
    let c = config_with(Vec::new());
    let mut source = RandomSource::scripted(vec![0]);
    match randomize(&c, &None, &mut source, RETRY_BUDGET) {
        RandomizeOutcome::NoThemes => {},
        _ => panic!("an empty catalog must be reported, not crash"),
    }
    assert_eq!(source.draw(2), 0);
}

#[test]
fn default_configuration_matches_conventions() {
    let c = Config::default();
    assert_eq!(c.cache_file_location, "~/.config/themester/.themecache");
    assert_eq!(c.term_env_var_name, "TERM_THEME");
    assert_eq!(c.nvim_theme_env_var_name, "NVIM_THEME");
    assert_eq!(c.nvim_plugin_env_var_name, "NVIM_THEME_PLUGIN");
    assert!(c.write_term_lua);
    assert_eq!(c.term_lua_path, "~/.config/wezterm/dynamic_theme.lua");
    assert_eq!(c.hours_per_randomization, 0);
    assert_eq!(c.theme.len(), 1);
    assert_eq!(c.theme[0].term, "plugin-name");
    assert!(c.theme[0].nvim_plugin.is_none());
    assert_eq!(c.theme[0].nvim_themename, "nvim-plugin-colorscheme");
    assert_eq!(LocalData::default().last_randomized, 0);
    let t = Theme::default();
    assert_eq!(t.term, "plugin-name");
    assert_eq!(t.nvim_themename, "nvim-plugin-colorscheme");
}

#[test]
fn duplicate_copies_every_field() {
    let t = theme("nordfox", Some("nordic"), "nordic");
    let d = t.duplicate();
    assert_eq!(d.term, t.term);
    assert_eq!(d.nvim_plugin, t.nvim_plugin);
    assert_eq!(d.nvim_themename, t.nvim_themename);
}
