//! Themes: metadata, CSS variables, assets and the built-in themes, and
//! their validation.
use vstd::prelude::*;

use std::time::SystemTime;

use crate::clock::system_now;
use crate::inline_renderer::strings_view;
use crate::text::{
    contains_seq, key_index, lemma_key_index_at, lemma_key_index_bound, owned, push_str, str_contains, str_eq, with_entry,
};

verus! {

broadcast use vstd::string::group_string_axioms;

/// Theme information metadata
#[derive(Debug)]
pub struct ThemeInfo {
    pub name: String,
    pub display_name: String,
    pub description: String,
    pub author: String,
    pub version: String,
    pub icon: Option<String>,
    pub preview_colors: Vec<String>,
    pub is_dark: bool,
    pub created_at: SystemTime,
    pub modified_at: SystemTime,
}

/// What a `ThemeInfo` says, leaving out its times.
#[verifier::ext_equal]
pub struct InfoView {
    pub name: Seq<char>,
    pub display_name: Seq<char>,
    pub description: Seq<char>,
    pub author: Seq<char>,
    pub version: Seq<char>,
    pub icon: Option<Seq<char>>,
    pub preview_colors: Seq<Seq<char>>,
    pub is_dark: bool,
}

impl View for ThemeInfo {
    type V = InfoView;

    open spec fn view(&self) -> InfoView {
        InfoView {
            name: self.name@,
            display_name: self.display_name@,
            description: self.description@,
            author: self.author@,
            version: self.version@,
            icon: crate::syntax_parser::opt_string_view(self.icon),
            preview_colors: strings_view(self.preview_colors@),
            is_dark: self.is_dark,
        }
    }
}

/// Complete theme definition with all assets and metadata. Assets and
/// variables are kept by name, each name once, in insertion order.
#[derive(Debug)]
pub struct Theme {
    pub info: ThemeInfo,
    pub css: String,
    pub javascript: Option<String>,
    pub assets: Vec<(String, Vec<u8>)>,
    pub variables: Vec<(String, String)>,
    pub mermaid_theme: Option<String>,
}

/// What a `Theme` says.
#[verifier::ext_equal]
pub struct ThemeView {
    pub info: InfoView,
    pub css: Seq<char>,
    pub javascript: Option<Seq<char>>,
    pub assets: Seq<(Seq<char>, Seq<u8>)>,
    pub variables: Seq<(Seq<char>, Seq<char>)>,
    pub mermaid: Option<Seq<char>>,
}

pub open spec fn asset_views(s: Seq<(String, Vec<u8>)>) -> Seq<(Seq<char>, Seq<u8>)> {
    s.map_values(|p: (String, Vec<u8>)| (p.0@, p.1@))
}

pub open spec fn variable_views(s: Seq<(String, String)>) -> Seq<(Seq<char>, Seq<char>)> {
    s.map_values(|p: (String, String)| (p.0@, p.1@))
}

impl View for Theme {
    type V = ThemeView;

    open spec fn view(&self) -> ThemeView {
        ThemeView {
            info: self.info@,
            css: self.css@,
            javascript: crate::syntax_parser::opt_string_view(self.javascript),
            assets: asset_views(self.assets@),
            variables: variable_views(self.variables@),
            mermaid: crate::syntax_parser::opt_string_view(self.mermaid_theme),
        }
    }
}

/// Theme change event for notifications
#[derive(Debug)]
pub struct ThemeChangeEvent {
    pub event_type: ThemeChangeType,
    pub theme_name: String,
    pub timestamp: SystemTime,
}

/// Types of theme change events
#[derive(Debug, Clone, Copy, PartialEq, Eq, Structural)]
pub enum ThemeChangeType {
    ThemeActivated,
    ThemeLoaded,
    ThemeUnloaded,
    ThemeModified,
    ThemeDeleted,
}

/// Theme validation result
#[derive(Debug)]
pub struct ThemeValidationResult {
    pub is_valid: bool,
    pub errors: Vec<String>,
    pub warnings: Vec<String>,
}

/// What a `ThemeValidationResult` says.
#[verifier::ext_equal]
pub struct ValidationView {
    pub is_valid: bool,
    pub errors: Seq<Seq<char>>,
    pub warnings: Seq<Seq<char>>,
}

impl View for ThemeValidationResult {
    type V = ValidationView;

    open spec fn view(&self) -> ValidationView {
        ValidationView {
            is_valid: self.is_valid,
            errors: strings_view(self.errors@),
            warnings: strings_view(self.warnings@),
        }
    }
}

// ---------------------------------------------------------------------------
// Themes and their entries
// ---------------------------------------------------------------------------

/// A theme's metadata as `Theme::new` sets it up.
pub open spec fn new_info(name: Seq<char>) -> InfoView {
    InfoView {
        name,
        display_name: name,
        description: seq![],
        author: "Unknown"@,
        version: "1.0.0"@,
        icon: None,
        preview_colors: seq![],
        is_dark: false,
    }
}

/// Index of the entry named `key`, computed.
fn find_key<V>(entries: &Vec<(String, V)>, key: &str) -> (r: Option<usize>)
    ensures
        match r {
            Some(i) => key_index(entries@.map_values(|p: (String, V)| (p.0@, p.1)), key@) == Some(
                i as int,
            ),
            None => key_index(entries@.map_values(|p: (String, V)| (p.0@, p.1)), key@) is None,
        },
{
    let ghost ks = entries@.map_values(|p: (String, V)| (p.0@, p.1));
    let mut i: usize = 0;
    while i < entries.len()
        invariant
            i <= entries@.len(),
            ks == entries@.map_values(|p: (String, V)| (p.0@, p.1)),
            key_index(ks.take(i as int), key@) is None,
        decreases entries@.len() - i,
    {
        assert(ks[i as int].0 == entries@[i as int].0@);
        if str_eq(entries[i].0.as_str(), key) {
            proof {
                lemma_key_index_at(ks, key@, i as int);
            }
            return Some(i);
        }
        assert(ks.take(i + 1).drop_last() =~= ks.take(i as int));
        i += 1;
    }
    assert(ks.take(i as int) =~= ks);
    None
}

impl Theme {
    /// Create a new theme with basic information
    pub fn new(name: String, css: String) -> (t: Self)
        ensures
            t@ == (ThemeView {
                info: new_info(name@),
                css: css@,
                javascript: None,
                assets: seq![],
                variables: seq![],
                mermaid: None,
            }),
    {
        let t = Self {
            info: ThemeInfo {
                name: name.clone(),
                display_name: name.clone(),
                description: String::new(),
                author: owned("Unknown"),
                version: owned("1.0.0"),
                icon: None,
                preview_colors: Vec::new(),
                is_dark: false,
                created_at: system_now(),
                modified_at: system_now(),
            },
            css,
            javascript: None,
            assets: Vec::new(),
            variables: Vec::new(),
            mermaid_theme: None,
        };
        assert(t@ =~= ThemeView {
            info: new_info(name@),
            css: t.css@,
            javascript: None,
            assets: seq![],
            variables: seq![],
            mermaid: None,
        });
        t
    }

    /// Get theme variable value
    pub fn get_variable(&self, key: &str) -> (r: Option<&String>)
        ensures
            match key_index(self@.variables, key@) {
                Some(i) => r matches Some(v) && v@ == self@.variables[i].1,
                None => r is None,
            },
    {
        proof {
            lemma_key_index_map(self.variables@, key@);
            lemma_key_index_bound(self@.variables, key@);
        }
        match find_key(&self.variables, key) {
            Some(i) => {
                assert(self@.variables[i as int].1 == self.variables@[i as int].1@);
                Some(&self.variables[i].1)
            },
            None => None,
        }
    }

    /// Set theme variable: in place if the name is there, else added at
    /// the end.
    pub fn set_variable(&mut self, key: String, value: String)
        ensures
            final(self)@ == (ThemeView {
                variables: with_entry(old(self)@.variables, key@, value@),
                ..old(self)@
            }),
    {
        proof {
            lemma_key_index_map(self.variables@, key@);
            lemma_key_index_bound(self@.variables, key@);
        }
        let ghost before = self.variables@;
        match find_key(&self.variables, key.as_str()) {
            Some(i) => {
                self.variables.set(i, (key, value));
            },
            None => {
                self.variables.push((key, value));
            },
        }
        assert(variable_views(self.variables@) =~= with_entry(variable_views(before), key@, value@));
        self.info.modified_at = system_now();
    }

    /// Add asset to theme: in place if the name is there, else added at the
    /// end.
    pub fn add_asset(&mut self, name: String, data: Vec<u8>)
        ensures
            final(self)@ == (ThemeView {
                assets: with_entry(old(self)@.assets, name@, data@),
                ..old(self)@
            }),
    {
        proof {
            lemma_key_index_map(self.assets@, name@);
            lemma_key_index_bound(self@.assets, name@);
        }
        let ghost before = self.assets@;
        match find_key(&self.assets, name.as_str()) {
            Some(i) => {
                self.assets.set(i, (name, data));
            },
            None => {
                self.assets.push((name, data));
            },
        }
        assert(asset_views(self.assets@) =~= with_entry(asset_views(before), name@, data@));
        self.info.modified_at = system_now();
    }

    /// Get asset from theme
    pub fn get_asset(&self, name: &str) -> (r: Option<&Vec<u8>>)
        ensures
            match key_index(self@.assets, name@) {
                Some(i) => r matches Some(v) && v@ == self@.assets[i].1,
                None => r is None,
            },
    {
        proof {
            lemma_key_index_map(self.assets@, name@);
            lemma_key_index_bound(self@.assets, name@);
        }
        match find_key(&self.assets, name) {
            Some(i) => {
                assert(self@.assets[i as int].1 == self.assets@[i as int].1@);
                Some(&self.assets[i].1)
            },
            None => None,
        }
    }

    /// Update theme metadata
    pub fn update_info(&mut self, info: ThemeInfo)
        ensures
            final(self)@ == (ThemeView { info: info@, ..old(self)@ }),
    {
        self.info = info;
        self.info.modified_at = system_now();
    }
}

/// Reading a variable after `set_variable` gives the value set, and every
/// other variable reads as before.
pub proof fn lemma_variable_read_after_write(
    t: ThemeView,
    key: Seq<char>,
    value: Seq<char>,
    other: Seq<char>,
)
    ensures
        ({
            let vs = with_entry(t.variables, key, value);
            &&& key_index(vs, key) matches Some(i) && vs[i].1 == value
            &&& other != key ==> key_index(vs, other) == key_index(t.variables, other)
            &&& other != key ==> (key_index(t.variables, other) matches Some(j) ==> vs[j].1
                == t.variables[j].1)
        }),
{
    crate::text::lemma_with_entry_read(t.variables, key, value, key);
    crate::text::lemma_with_entry_read(t.variables, key, value, other);
}

/// Reading an asset after `add_asset` gives the bytes added, and every
/// other asset reads as before.
pub proof fn lemma_asset_read_after_write(t: ThemeView, name: Seq<char>, data: Seq<u8>, other: Seq<char>)
    ensures
        ({
            let a = with_entry(t.assets, name, data);
            &&& key_index(a, name) matches Some(i) && a[i].1 == data
            &&& other != name ==> key_index(a, other) == key_index(t.assets, other)
            &&& other != name ==> (key_index(t.assets, other) matches Some(j) ==> a[j].1
                == t.assets[j].1)
        }),
{
    crate::text::lemma_with_entry_read(t.assets, name, data, name);
    crate::text::lemma_with_entry_read(t.assets, name, data, other);
}

/// The key positions do not depend on how the values are viewed.
proof fn lemma_key_index_map<W: View>(s: Seq<(String, W)>, k: Seq<char>)
    ensures
        key_index(s.map_values(|p: (String, W)| (p.0@, p.1)), k) == key_index(
            s.map_values(|p: (String, W)| (p.0@, p.1@)),
            k,
        ),
    decreases s.len(),
{
    if s.len() > 0 {
        lemma_key_index_map::<W>(s.drop_last(), k);
        assert(s.drop_last().map_values(|p: (String, W)| (p.0@, p.1)) =~= s.map_values(
            |p: (String, W)| (p.0@, p.1),
        ).drop_last());
        assert(s.drop_last().map_values(|p: (String, W)| (p.0@, p.1@)) =~= s.map_values(
            |p: (String, W)| (p.0@, p.1@),
        ).drop_last());
    }
}

// ---------------------------------------------------------------------------
// Built-in themes
// ---------------------------------------------------------------------------

/// The CSS variables of the `light` theme.
pub const LIGHT_CSS: &'static str = "\n                :root {\n                    --bg-color: #fff;\n                    --text-color: #333;\n                    --border-color: #eaecef;\n                    --border-color-light: #dfe2e5;\n                    --code-bg: #f6f8fa;\n                    --blockquote-color: #6a737d;\n                    --link-color: #0366d6;\n                    --table-header-bg: #f6f8fa;\n                }\n            ";

/// The CSS variables of the `dark` theme.
pub const DARK_CSS: &'static str = "\n                :root {\n                    --bg-color: #0d1117;\n                    --text-color: #e6edf3;\n                    --border-color: #30363d;\n                    --border-color-light: #21262d;\n                    --code-bg: #161b22;\n                    --blockquote-color: #8b949e;\n                    --link-color: #58a6ff;\n                    --table-header-bg: #161b22;\n                }\n            ";

/// The CSS variables of the `catppuccin-latte` theme.
pub const CATPPUCCIN_LATTE_CSS: &'static str = "\n                :root {\n                    --bg-color: #eff1f5;\n                    --text-color: #4c4f69;\n                    --border-color: #bcc0cc;\n                    --border-color-light: #ccd0da;\n                    --code-bg: #e6e9ef;\n                    --blockquote-color: #6c6f85;\n                    --link-color: #1e66f5;\n                    --table-header-bg: #ccd0da;\n                }\n            ";

/// The CSS variables of the `catppuccin-macchiato` theme.
pub const CATPPUCCIN_MACCHIATO_CSS: &'static str = "\n                :root {\n                    --bg-color: #24273a;\n                    --text-color: #cad3f5;\n                    --border-color: #494d64;\n                    --border-color-light: #363a4f;\n                    --code-bg: #1e2030;\n                    --blockquote-color: #a5adcb;\n                    --link-color: #8aadf4;\n                    --table-header-bg: #363a4f;\n                }\n            ";

/// The CSS variables of the `catppuccin-mocha` theme.
pub const CATPPUCCIN_MOCHA_CSS: &'static str = "\n                :root {\n                    --bg-color: #1e1e2e;\n                    --text-color: #cdd6f4;\n                    --border-color: #45475a;\n                    --border-color-light: #313244;\n                    --code-bg: #181825;\n                    --blockquote-color: #a6adc8;\n                    --link-color: #89b4fa;\n                    --table-header-bg: #313244;\n                }\n            ";

/// The CSS of a built-in theme, by name.
pub open spec fn theme_css(name: Seq<char>) -> Option<Seq<char>> {
    if name == "light"@ {
        Some(LIGHT_CSS@)
    } else if name == "dark"@ {
        Some(DARK_CSS@)
    } else if name == "catppuccin-latte"@ {
        Some(CATPPUCCIN_LATTE_CSS@)
    } else if name == "catppuccin-macchiato"@ {
        Some(CATPPUCCIN_MACCHIATO_CSS@)
    } else if name == "catppuccin-mocha"@ {
        Some(CATPPUCCIN_MOCHA_CSS@)
    } else {
        None
    }
}

/// Generate CSS for a built-in theme; an unknown name is an error.
pub fn generate_theme_css(theme_name: &str) -> (r: Result<String, String>)
    ensures
        match theme_css(theme_name@) {
            Some(c) => r matches Ok(s) && s@ == c,
            None => r matches Err(e) && e@ == "Unknown theme: "@ + theme_name@,
        },
{
    let css = if str_eq(theme_name, "light") {
        LIGHT_CSS
    } else if str_eq(theme_name, "dark") {
        DARK_CSS
    } else if str_eq(theme_name, "catppuccin-latte") {
        CATPPUCCIN_LATTE_CSS
    } else if str_eq(theme_name, "catppuccin-macchiato") {
        CATPPUCCIN_MACCHIATO_CSS
    } else if str_eq(theme_name, "catppuccin-mocha") {
        CATPPUCCIN_MOCHA_CSS
    } else {
        let mut e = owned("Unknown theme: ");
        push_str(&mut e, theme_name);
        return Err(e);
    };
    Ok(owned(css))
}

/// The built-in themes: name, display name, icon, preview colors, and
/// whether the theme is dark.
pub open spec fn builtin_table() -> Seq<(Seq<char>, Seq<char>, Seq<char>, Seq<Seq<char>>, bool)> {
    seq![
        ("light"@, "Light"@, "☀️"@, seq!["#fff"@, "#333"@, "#0366d6"@], false),
        ("dark"@, "Dark"@, "🌙"@, seq!["#0d1117"@, "#e6edf3"@, "#58a6ff"@], true),
        (
            "catppuccin-latte"@,
            "Catppuccin Latte"@,
            "☕"@,
            seq!["#eff1f5"@, "#4c4f69"@, "#1e66f5"@],
            false,
        ),
        (
            "catppuccin-macchiato"@,
            "Catppuccin Macchiato"@,
            "🥛"@,
            seq!["#24273a"@, "#cad3f5"@, "#8aadf4"@],
            true,
        ),
        (
            "catppuccin-mocha"@,
            "Catppuccin Mocha"@,
            "🐱"@,
            seq!["#1e1e2e"@, "#cdd6f4"@, "#89b4fa"@],
            true,
        ),
    ]
}

/// A built-in theme as it is set up from its table entry and its CSS.
pub open spec fn builtin_view(
    d: (Seq<char>, Seq<char>, Seq<char>, Seq<Seq<char>>, bool),
    css: Seq<char>,
) -> ThemeView {
    ThemeView {
        info: InfoView {
            name: d.0,
            display_name: d.1,
            description: d.1 + " theme for markdown preview"@,
            author: "Rune"@,
            version: "1.0.0"@,
            icon: Some(d.2),
            preview_colors: d.3,
            is_dark: d.4,
        },
        css,
        javascript: None,
        assets: seq![],
        variables: seq![],
        mermaid: Some(
            if d.4 {
                "dark"@
            } else {
                "default"@
            },
        ),
    }
}

pub open spec fn theme_views(s: Seq<Theme>) -> Seq<ThemeView> {
    s.map_values(|t: Theme| t@)
}

fn builtin_theme(
    name: &str,
    display_name: &str,
    icon: &str,
    colors: (&str, &str, &str),
    is_dark: bool,
    css: &str,
) -> (t: Theme)
    ensures
        t@ == builtin_view(
            (name@, display_name@, icon@, seq![colors.0@, colors.1@, colors.2@], is_dark),
            css@,
        ),
{
    let mut theme = Theme::new(owned(name), owned(css));
    theme.info.display_name = owned(display_name);
    let mut description = owned(display_name);
    push_str(&mut description, " theme for markdown preview");
    theme.info.description = description;
    theme.info.author = owned("Rune");
    theme.info.icon = Some(owned(icon));
    let mut preview_colors: Vec<String> = Vec::new();
    preview_colors.push(owned(colors.0));
    preview_colors.push(owned(colors.1));
    preview_colors.push(owned(colors.2));
    theme.info.preview_colors = preview_colors;
    theme.info.is_dark = is_dark;
    theme.mermaid_theme = Some(
        if is_dark {
            owned("dark")
        } else {
            owned("default")
        },
    );
    assert(theme@.info.preview_colors =~= seq![colors.0@, colors.1@, colors.2@]);
    assert(theme@ =~= builtin_view(
        (name@, display_name@, icon@, seq![colors.0@, colors.1@, colors.2@], is_dark),
        css@,
    ));
    theme
}

/// The built-in themes, each with the CSS that `generate_theme_css` gives
/// for its name.
pub fn builtin_themes() -> (r: Vec<Theme>)
    ensures
        r@.len() == builtin_table().len(),
        forall|i: int|
            0 <= i < r@.len() ==> (#[trigger] r@[i])@ == builtin_view(
                builtin_table()[i],
                theme_css(builtin_table()[i].0)->0,
            ),
{
    proof {
        reveal_strlit("light");
        reveal_strlit("dark");
        reveal_strlit("catppuccin-latte");
        reveal_strlit("catppuccin-macchiato");
        reveal_strlit("catppuccin-mocha");
    }
    let mut themes: Vec<Theme> = Vec::new();
    themes.push(
        builtin_theme("light", "Light", "☀️", ("#fff", "#333", "#0366d6"), false, LIGHT_CSS),
    );
    themes.push(
        builtin_theme("dark", "Dark", "🌙", ("#0d1117", "#e6edf3", "#58a6ff"), true, DARK_CSS),
    );
    themes.push(
        builtin_theme(
            "catppuccin-latte",
            "Catppuccin Latte",
            "☕",
            ("#eff1f5", "#4c4f69", "#1e66f5"),
            false,
            CATPPUCCIN_LATTE_CSS,
        ),
    );
    themes.push(
        builtin_theme(
            "catppuccin-macchiato",
            "Catppuccin Macchiato",
            "🥛",
            ("#24273a", "#cad3f5", "#8aadf4"),
            true,
            CATPPUCCIN_MACCHIATO_CSS,
        ),
    );
    themes.push(
        builtin_theme(
            "catppuccin-mocha",
            "Catppuccin Mocha",
            "🐱",
            ("#1e1e2e", "#cdd6f4", "#89b4fa"),
            true,
            CATPPUCCIN_MOCHA_CSS,
        ),
    );
    proof {
        assert("light"@[0] == 'l' && "dark"@[0] == 'd' && "catppuccin-latte"@[0] == 'c');
        assert("catppuccin-latte"@[11] == 'l' && "catppuccin-macchiato"@[11] == 'm');
        assert("catppuccin-macchiato"@.len() == 20 && "catppuccin-mocha"@.len() == 16);
        assert("catppuccin-mocha"@[11] == 'm' && "catppuccin-latte"@[11] == 'l');
        assert(theme_css("light"@) == Some(LIGHT_CSS@));
        assert(theme_css("dark"@) == Some(DARK_CSS@));
        assert(theme_css("catppuccin-latte"@) == Some(CATPPUCCIN_LATTE_CSS@));
        assert(theme_css("catppuccin-macchiato"@) == Some(CATPPUCCIN_MACCHIATO_CSS@));
        assert(theme_css("catppuccin-mocha"@) == Some(CATPPUCCIN_MOCHA_CSS@));
        assert(themes@[0]@ == builtin_view(builtin_table()[0], theme_css(builtin_table()[0].0)->0));
        assert(themes@[1]@ == builtin_view(builtin_table()[1], theme_css(builtin_table()[1].0)->0));
        assert(themes@[2]@ == builtin_view(builtin_table()[2], theme_css(builtin_table()[2].0)->0));
        assert(themes@[3]@ == builtin_view(builtin_table()[3], theme_css(builtin_table()[3].0)->0));
        assert(themes@[4]@ == builtin_view(builtin_table()[4], theme_css(builtin_table()[4].0)->0));
    }
    themes
}

/// The theme chosen when none is current and some are loaded.
pub open spec fn default_theme_name() -> Seq<char> {
    "catppuccin-mocha"@
}

/// The current theme after the built-in themes are loaded: kept if there
/// is one, else the default when any theme is loaded.
pub fn current_after_load(current: Option<String>, theme_count: usize) -> (r: Option<String>)
    ensures
        crate::syntax_parser::opt_string_view(r) == if current is Some {
            crate::syntax_parser::opt_string_view(current)
        } else if theme_count > 0 {
            Some(default_theme_name())
        } else {
            None::<Seq<char>>
        },
{
    match current {
        Some(c) => Some(c),
        None => if theme_count > 0 {
            Some(owned("catppuccin-mocha"))
        } else {
            None
        },
    }
}

// ---------------------------------------------------------------------------
// The theme provider
// ---------------------------------------------------------------------------

/// The themes of a provider, each with its name.
pub open spec fn named_themes(s: Seq<Theme>) -> Seq<(Seq<char>, ThemeView)> {
    s.map_values(|t: Theme| (t.info.name@, t@))
}

/// The error for a theme that is not loaded.
pub open spec fn theme_not_found(name: Seq<char>) -> Seq<char> {
    "Theme not found: "@ + name
}

/// Default theme provider: the loaded themes by name (each name once, in
/// the order first loaded) and the current theme.
pub struct DefaultThemeProvider {
    themes: Vec<Theme>,
    current_theme: Option<String>,
}

impl DefaultThemeProvider {
    pub closed spec fn loaded(&self) -> Seq<(Seq<char>, ThemeView)> {
        named_themes(self.themes@)
    }

    pub closed spec fn current(&self) -> Option<Seq<char>> {
        crate::syntax_parser::opt_string_view(self.current_theme)
    }

    /// Create a new default theme provider
    pub fn new() -> (p: Self)
        ensures
            p.loaded() == Seq::<(Seq<char>, ThemeView)>::empty(),
            p.current() is None,
    {
        let p = Self { themes: Vec::new(), current_theme: None };
        assert(p.loaded() =~= Seq::<(Seq<char>, ThemeView)>::empty());
        p
    }

    /// The position of the theme named `name`.
    fn find(&self, name: &str) -> (r: Option<usize>)
        ensures
            match r {
                Some(i) => i < self.themes@.len() && key_index(self.loaded(), name@) == Some(i as int),
                None => key_index(self.loaded(), name@) is None,
            },
    {
        let ghost ks = self.loaded();
        let mut i: usize = 0;
        while i < self.themes.len()
            invariant
                i <= self.themes@.len(),
                ks == named_themes(self.themes@),
                key_index(ks.take(i as int), name@) is None,
            decreases self.themes@.len() - i,
        {
            assert(ks[i as int].0 == self.themes@[i as int].info.name@);
            if str_eq(self.themes[i].info.name.as_str(), name) {
                proof {
                    lemma_key_index_at(ks, name@, i as int);
                }
                return Some(i);
            }
            assert(ks.take(i + 1).drop_last() =~= ks.take(i as int));
            i += 1;
        }
        assert(ks.take(i as int) =~= ks);
        None
    }

    /// Add a theme, replacing a loaded theme of the same name.
    pub fn add_theme(&mut self, theme: Theme)
        ensures
            final(self).loaded() == with_entry(old(self).loaded(), theme.info.name@, theme@),
            final(self).current() == old(self).current(),
            final(self).loaded().len() > 0,
    {
        let ghost ks = self.loaded();
        let ghost entry = (theme.info.name@, theme@);
        match self.find(theme.info.name.as_str()) {
            Some(i) => {
                let mut themes: Vec<Theme> = Vec::new();
                std::mem::swap(&mut themes, &mut self.themes);
                themes.set(i, theme);
                self.themes = themes;
                assert(self.loaded() =~= ks.update(i as int, entry));
            },
            None => {
                self.themes.push(theme);
                assert(self.loaded() =~= ks.push(entry));
            },
        }
    }

    /// Load the built-in themes; with none current, the default becomes
    /// current.
    pub fn load_builtin_themes(&mut self)
        ensures
            final(self).current() == if old(self).current() is Some {
                old(self).current()
            } else {
                Some(default_theme_name())
            },
    {
        let mut builtin = builtin_themes();
        let mut added = false;
        while builtin.len() > 0
            invariant
                self.current() == old(self).current(),
                added ==> self.loaded().len() > 0,
                !added ==> builtin@.len() > 0,
            decreases builtin@.len(),
        {
            let t = builtin.remove(0);
            self.add_theme(t);
            added = true;
        }
        let mut current: Option<String> = None;
        std::mem::swap(&mut current, &mut self.current_theme);
        let n = self.themes.len();
        self.current_theme = current_after_load(current, n);
    }

    /// The information of each loaded theme, in the order first loaded.
    pub fn available_themes(&self) -> (r: Vec<String>)
        ensures
            r@.len() == self.loaded().len(),
            forall|k: int| 0 <= k < r@.len() ==> (#[trigger] r@[k])@ == self.loaded()[k].0,
    {
        let mut r: Vec<String> = Vec::new();
        let mut i: usize = 0;
        while i < self.themes.len()
            invariant
                i <= self.themes@.len(),
                r@.len() == i,
                forall|k: int| 0 <= k < i ==> (#[trigger] r@[k])@ == self.loaded()[k].0,
            decreases self.themes@.len() - i,
        {
            assert(self.loaded()[i as int].0 == self.themes@[i as int].info.name@);
            r.push(owned(self.themes[i].info.name.as_str()));
            i += 1;
        }
        r
    }

    /// The loaded theme named `name`, or the error that it is not loaded.
    pub fn load_theme(&self, name: &str) -> (r: Result<&Theme, String>)
        ensures
            match key_index(self.loaded(), name@) {
                Some(i) => r matches Ok(t) && t@ == self.loaded()[i].1,
                None => r matches Err(e) && e@ == theme_not_found(name@),
            },
    {
        match self.find(name) {
            Some(i) => Ok(&self.themes[i]),
            None => {
                let mut e = owned("Theme not found: ");
                push_str(&mut e, name);
                Err(e)
            },
        }
    }

    /// The current theme.
    pub fn get_current_theme(&self) -> (r: Option<&String>)
        ensures
            match r {
                Some(s) => self.current() == Some(s@),
                None => self.current() is None,
            },
    {
        match &self.current_theme {
            Some(s) => Some(s),
            None => None,
        }
    }

    /// Make the loaded theme named `name` current, telling of it with an
    /// activation event; a theme that is not loaded is an error and changes
    /// nothing.
    pub fn set_current_theme(&mut self, name: &str) -> (r: Result<ThemeChangeEvent, String>)
        ensures
            final(self).loaded() == old(self).loaded(),
            key_index(old(self).loaded(), name@) is Some ==> final(self).current() == Some(name@) && (
            r matches Ok(ev) && ev.event_type == ThemeChangeType::ThemeActivated && ev.theme_name@
                == name@),
            key_index(old(self).loaded(), name@) is None ==> final(self).current() == old(
                self,
            ).current() && (r matches Err(e) && e@ == theme_not_found(name@)),
    {
        match self.find(name) {
            Some(_) => {
                self.current_theme = Some(owned(name));
                Ok(
                    ThemeChangeEvent {
                        event_type: ThemeChangeType::ThemeActivated,
                        theme_name: owned(name),
                        timestamp: system_now(),
                    },
                )
            },
            None => {
                let mut e = owned("Theme not found: ");
                push_str(&mut e, name);
                Err(e)
            },
        }
    }
}

/// A theme read after it is added is the theme added, and a theme becomes
/// current only once it is loaded.
pub proof fn lemma_theme_read_after_add(p: Seq<(Seq<char>, ThemeView)>, t: ThemeView, other: Seq<char>)
    ensures
        ({
            let q = with_entry(p, t.info.name, t);
            &&& key_index(q, t.info.name) matches Some(i) && q[i].1 == t
            &&& other != t.info.name ==> key_index(q, other) == key_index(p, other)
        }),
{
    crate::text::lemma_with_entry_read(p, t.info.name, t, t.info.name);
    crate::text::lemma_with_entry_read(p, t.info.name, t, other);
}

// ---------------------------------------------------------------------------
// Validation
// ---------------------------------------------------------------------------

/// CSS variables every theme should define.
pub open spec fn required_vars() -> Seq<Seq<char>> {
    seq!["--bg-color"@, "--text-color"@, "--border-color"@, "--code-bg"@, "--link-color"@]
}

/// A warning for each required variable that the CSS lacks, in order.
pub open spec fn missing_var_warnings(css: Seq<char>, n: int) -> Seq<Seq<char>>
    decreases n,
{
    if n <= 0 {
        seq![]
    } else {
        let rest = missing_var_warnings(css, n - 1);
        let v = required_vars()[n - 1];
        if contains_seq(css, v) {
            rest
        } else {
            rest.push("Missing recommended CSS variable: "@ + v)
        }
    }
}

/// What validating a theme finds: errors for an empty name or empty CSS,
/// warnings for missing variables and a version without a `.`.
pub open spec fn spec_validate(t: ThemeView) -> ValidationView {
    let errors = (if t.info.name.len() == 0 {
        seq!["Theme name cannot be empty"@]
    } else {
        seq![]
    }) + (if t.css.len() == 0 {
        seq!["Theme CSS cannot be empty"@]
    } else {
        seq![]
    });
    let warnings = missing_var_warnings(t.css, 5) + (if contains_seq(t.info.version, seq!['.']) {
        seq![]
    } else {
        seq!["Version should follow semantic versioning (e.g., 1.0.0)"@]
    });
    ValidationView { is_valid: errors.len() == 0, errors, warnings }
}

fn push_string(v: &mut Vec<String>, s: String)
    ensures
        strings_view(final(v)@) == strings_view(old(v)@).push(s@),
{
    v.push(s);
    assert(strings_view(v@) =~= strings_view(old(v)@).push(s@));
}

/// Validate theme structure and content
pub fn validate_theme(theme: &Theme) -> (r: ThemeValidationResult)
    ensures
        r@ == spec_validate(theme@),
{
    let mut errors: Vec<String> = Vec::new();
    let mut warnings: Vec<String> = Vec::new();
    if theme.info.name.unicode_len() == 0 {
        push_string(&mut errors, owned("Theme name cannot be empty"));
    }
    if theme.css.unicode_len() == 0 {
        push_string(&mut errors, owned("Theme CSS cannot be empty"));
    }
    let ghost expected_errors = (if theme@.info.name.len() == 0 {
        seq!["Theme name cannot be empty"@]
    } else {
        seq![]
    }) + (if theme@.css.len() == 0 {
        seq!["Theme CSS cannot be empty"@]
    } else {
        seq![]
    });
    assert(strings_view(errors@) =~= expected_errors);
    let required = ["--bg-color", "--text-color", "--border-color", "--code-bg", "--link-color"];
    let mut i: usize = 0;
    assert(strings_view(warnings@) =~= missing_var_warnings(theme@.css, 0));
    while i < 5
        invariant
            i <= 5,
            required@ == seq!["--bg-color", "--text-color", "--border-color", "--code-bg", "--link-color"],
            strings_view(warnings@) == missing_var_warnings(theme@.css, i as int),
        decreases 5 - i,
    {
        let var = required[i];
        assert(var@ == required_vars()[i as int]);
        if !str_contains(theme.css.as_str(), var) {
            let mut w = owned("Missing recommended CSS variable: ");
            push_str(&mut w, var);
            push_string(&mut warnings, w);
        }
        i += 1;
    }
    proof {
        reveal_strlit(".");
        assert("."@ =~= seq!['.']);
    }
    let ghost w5 = strings_view(warnings@);
    if !str_contains(theme.info.version.as_str(), ".") {
        push_string(&mut warnings, owned("Version should follow semantic versioning (e.g., 1.0.0)"));
    }
    assert(strings_view(warnings@) =~= w5 + (if contains_seq(theme@.info.version, seq!['.']) {
        seq![]
    } else {
        seq!["Version should follow semantic versioning (e.g., 1.0.0)"@]
    }));
    let is_valid = errors.len() == 0;
    let r = ThemeValidationResult { is_valid, errors, warnings };
    assert(r@ =~= spec_validate(theme@));
    r
}

} // verus!
