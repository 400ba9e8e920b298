use vstd::prelude::*;

verus! {

/// One configured theme: the identifier handed to the terminal, the
/// editor colorscheme name, and (optionally) the editor plugin name.
pub struct Theme {
    pub term: String,
    pub nvim_plugin: Option<String>,
    pub nvim_themename: String,
}

/// The mathematical value of a `Theme`: its fields as character sequences.
pub struct ThemeView {
    pub term: Seq<char>,
    pub nvim_plugin: Option<Seq<char>>,
    pub nvim_themename: Seq<char>,
}

impl View for Theme {
    type V = ThemeView;

    open spec fn view(&self) -> ThemeView {
        ThemeView {
            term: self.term@,
            nvim_plugin: match self.nvim_plugin {
                Option::Some(p) => Option::Some(p@),
                Option::None => Option::None,
            },
            nvim_themename: self.nvim_themename@,
        }
    }
}

impl Theme {
    /// A copy that is provably equal to the original.
    pub fn duplicate(&self) -> (r: Theme)
        ensures
            r == *self,
            r@ == self@,
    {
        Theme {
            term: self.term.clone(),
            nvim_plugin: match &self.nvim_plugin {
                Option::Some(p) => Option::Some(p.clone()),
                Option::None => Option::None,
            },
            nvim_themename: self.nvim_themename.clone(),
        }
    }
}

impl Default for Theme {
    /// The placeholder theme that a fresh configuration starts from.
    fn default() -> (r: Theme)
        ensures
            r.term@ == "plugin-name"@,
            r.nvim_plugin is None,
            r.nvim_themename@ == "nvim-plugin-colorscheme"@,
    {
        Theme {
            term: "plugin-name".to_owned(),
            nvim_plugin: Option::None,
            nvim_themename: "nvim-plugin-colorscheme".to_owned(),
        }
    }
}

/// The views of every theme of a catalog, in catalog order.
pub open spec fn theme_views(catalog: Seq<Theme>) -> Seq<ThemeView> {
    catalog.map_values(|t: Theme| t@)
}

/// The whole configuration: where the cache lives, which environment
/// variables the exports set, whether and where the terminal side file
/// is written, how many hours must pass before a `load` rerolls
/// (0 disables that), and the theme catalog.
pub struct Config {
    pub cache_file_location: String,
    pub term_env_var_name: String,
    pub nvim_theme_env_var_name: String,
    pub nvim_plugin_env_var_name: String,
    pub write_term_lua: bool,
    pub term_lua_path: String,
    pub hours_per_randomization: i32,
    pub theme: Vec<Theme>,
}

/// The mathematical value of a `Config`.
pub struct ConfigView {
    pub cache_file_location: Seq<char>,
    pub term_env_var_name: Seq<char>,
    pub nvim_theme_env_var_name: Seq<char>,
    pub nvim_plugin_env_var_name: Seq<char>,
    pub write_term_lua: bool,
    pub term_lua_path: Seq<char>,
    pub hours_per_randomization: int,
    pub theme: Seq<ThemeView>,
}

impl View for Config {
    type V = ConfigView;

    open spec fn view(&self) -> ConfigView {
        ConfigView {
            cache_file_location: self.cache_file_location@,
            term_env_var_name: self.term_env_var_name@,
            nvim_theme_env_var_name: self.nvim_theme_env_var_name@,
            nvim_plugin_env_var_name: self.nvim_plugin_env_var_name@,
            write_term_lua: self.write_term_lua,
            term_lua_path: self.term_lua_path@,
            hours_per_randomization: self.hours_per_randomization as int,
            theme: theme_views(self.theme@),
        }
    }
}

impl Default for Config {
    /// The configuration used when the durable store provides nothing:
    /// conventional paths and variable names, the side file enabled,
    /// scheduled rerolling disabled, and a one-entry placeholder catalog.
    fn default() -> (r: Config)
        ensures
            r.cache_file_location@ == "~/.config/themester/.themecache"@,
            r.term_env_var_name@ == "TERM_THEME"@,
            r.nvim_theme_env_var_name@ == "NVIM_THEME"@,
            r.nvim_plugin_env_var_name@ == "NVIM_THEME_PLUGIN"@,
            r.write_term_lua == true,
            r.term_lua_path@ == "~/.config/wezterm/dynamic_theme.lua"@,
            r.hours_per_randomization == 0,
            r.theme@.len() == 1,
            r.theme@[0].term@ == "plugin-name"@,
            r.theme@[0].nvim_plugin is None,
            r.theme@[0].nvim_themename@ == "nvim-plugin-colorscheme"@,
    {
        Config {
            cache_file_location: "~/.config/themester/.themecache".to_owned(),
            term_env_var_name: "TERM_THEME".to_owned(),
            nvim_theme_env_var_name: "NVIM_THEME".to_owned(),
            nvim_plugin_env_var_name: "NVIM_THEME_PLUGIN".to_owned(),
            write_term_lua: true,
            term_lua_path: "~/.config/wezterm/dynamic_theme.lua".to_owned(),
            hours_per_randomization: 0,
            theme: vec![Theme::default()],
        }
    }
}

/// The locally persisted state: when the last successful reroll
/// happened, as seconds since the epoch.
pub struct LocalData {
    pub last_randomized: i64,
}

impl Default for LocalData {
    /// When no state was ever persisted, the last reroll counts as the epoch.
    fn default() -> (r: LocalData)
        ensures
            r.last_randomized == 0,
    {
        LocalData { last_randomized: 0 }
    }
}

} // verus!
