//! Settings: the theme to use and where theme files are looked for.

use vstd::prelude::*;
use crate::chars::{chars_of, push_char};
use crate::theme::push_all;

verus! {

pub struct Config {
    pub general: GeneralConfig,
    pub themes: ThemeConfig,
}

pub struct GeneralConfig {
    pub theme: String,
    pub buffer_size: Option<usize>,
    pub follow_retry_interval: Option<u64>,
}

/// Directories searched for theme files, user directory first.
pub struct ThemeConfig {
    pub builtin_path: String,
    pub user_path: String,
}

/// `name` under the directory `dir`, as a path join does it: an absolute
/// `name` stands alone, and one separator goes between the two.
pub open spec fn path_join(dir: Seq<char>, name: Seq<char>) -> Seq<char> {
    if name.len() > 0 && name[0] == '/' {
        name
    } else if dir.len() == 0 {
        name
    } else if dir.last() == '/' {
        dir + name
    } else {
        dir + seq!['/'] + name
    }
}

/// Joins a directory and a name into a path.
pub fn join_path(dir: &str, name: &str) -> (r: String)
    ensures
        r@ == path_join(dir@, name@),
{
    let d = chars_of(dir);
    let n = chars_of(name);
    if n.len() > 0 && n[0] == '/' {
        return String::from_str(name);
    }
    if d.len() == 0 {
        return String::from_str(name);
    }
    let mut out = String::new();
    push_all(&mut out, &d);
    if d[d.len() - 1] != '/' {
        push_char(&mut out, '/');
    }
    push_all(&mut out, &n);
    assert(out@ =~= path_join(dir@, name@));
    out
}

/// The file name of the theme `name`.
pub open spec fn theme_file_name(name: Seq<char>) -> Seq<char> {
    "ft.conf."@ + name
}

impl Config {
    /// The default settings, with user themes under `config_dir` (or under
    /// `~/.config` when there is no configuration directory).
    pub fn with_config_dir(config_dir: Option<String>) -> (r: Config)
        ensures
            r.general.theme@ == "catppuccin"@,
            r.general.buffer_size == Some(8192usize),
            r.general.follow_retry_interval == Some(1000u64),
            r.themes.builtin_path@ == "/etc/fuzzytail/themes"@,
            r.themes.user_path@ == path_join(
                match config_dir {
                    Some(d) => d@,
                    None => "~/.config"@,
                },
                "fuzzytail/themes"@,
            ),
    {
        let dir = match config_dir {
            Some(d) => d,
            None => String::from_str("~/.config"),
        };
        Config {
            general: GeneralConfig {
                theme: String::from_str("catppuccin"),
                buffer_size: Some(8192),
                follow_retry_interval: Some(1000),
            },
            themes: ThemeConfig {
                builtin_path: String::from_str("/etc/fuzzytail/themes"),
                user_path: join_path(dir.as_str(), "fuzzytail/themes"),
            },
        }
    }

    /// Where the settings file lives under the configuration directory.
    pub fn default_config_path(config_dir: &str) -> (r: String)
        ensures
            r@ == path_join(path_join(config_dir@, "fuzzytail"@), "config.toml"@),
    {
        let dir = join_path(config_dir, "fuzzytail");
        join_path(dir.as_str(), "config.toml")
    }

    /// The file name of the theme `theme_name`: `ft.conf.<name>`.
    pub fn theme_file(theme_name: &str) -> (r: String)
        ensures
            r@ == theme_file_name(theme_name@),
    {
        let mut out = String::from_str("ft.conf.");
        out.append(theme_name);
        out
    }

    /// Where the theme would be in the user directory.
    pub fn user_theme_path(&self, theme_name: &str) -> (r: String)
        ensures
            r@ == path_join(self.themes.user_path@, theme_file_name(theme_name@)),
    {
        let f = Self::theme_file(theme_name);
        join_path(self.themes.user_path.as_str(), f.as_str())
    }

    /// Where the theme would be in the built-in directory.
    pub fn builtin_theme_path(&self, theme_name: &str) -> (r: String)
        ensures
            r@ == path_join(self.themes.builtin_path@, theme_file_name(theme_name@)),
    {
        let f = Self::theme_file(theme_name);
        join_path(self.themes.builtin_path.as_str(), f.as_str())
    }

    /// The theme file to load: the user directory's when it exists there,
    /// else the built-in directory's, else none. The caller says which of the
    /// two candidate files exist.
    pub fn get_theme_path(&self, theme_name: &str, user_exists: bool, builtin_exists: bool) -> (r: Option<String>)
        ensures
            user_exists ==> (r matches Some(p) && p@ == path_join(self.themes.user_path@, theme_file_name(theme_name@))),
            !user_exists && builtin_exists ==> (r matches Some(p) && p@ == path_join(
                self.themes.builtin_path@,
                theme_file_name(theme_name@),
            )),
            !user_exists && !builtin_exists ==> r is None,
    {
        if user_exists {
            Some(self.user_theme_path(theme_name))
        } else if builtin_exists {
            Some(self.builtin_theme_path(theme_name))
        } else {
            None
        }
    }
}

} // verus!
