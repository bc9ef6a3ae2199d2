//! The check of a loaded configuration before the server starts: its
//! server settings, each plugin's own check, dependencies of a plugin on
//! itself, disabled plugins, and dependencies on plugins that are not
//! enabled.
use vstd::prelude::*;

use crate::inline_renderer::strings_view;
use crate::syntax_parser::opt_string_view;
use crate::text::{owned, push_str, str_eq};

verus! {

broadcast use vstd::string::group_string_axioms;

/// What the check reads of one configured plugin.
pub struct PluginFacts {
    pub name: String,
    pub dependencies: Vec<String>,
    pub enabled: bool,
    /// What the plugin's own check reported, where it failed
    pub check_error: Option<String>,
}

pub struct PluginFactsView {
    pub name: Seq<char>,
    pub deps: Seq<Seq<char>>,
    pub enabled: bool,
    pub error: Option<Seq<char>>,
}

impl View for PluginFacts {
    type V = PluginFactsView;

    open spec fn view(&self) -> PluginFactsView {
        PluginFactsView {
            name: self.name@,
            deps: strings_view(self.dependencies@),
            enabled: self.enabled,
            error: opt_string_view(self.check_error),
        }
    }
}

/// What the check reads of a configuration: the server's hostname and
/// port, and the plugins in the order they are configured.
pub struct ConfigFacts {
    pub hostname: String,
    pub port: u16,
    pub plugins: Vec<PluginFacts>,
}

pub open spec fn plugin_views(ps: Seq<PluginFacts>) -> Seq<PluginFactsView> {
    ps.map_values(|p: PluginFacts| p@)
}

/// The outcome of a check: an error in the server settings stops it;
/// otherwise the plugins' errors, the warnings and the dependency errors.
pub struct ConfigReport {
    pub server_error: Option<String>,
    pub plugin_errors: Vec<String>,
    pub warnings: Vec<String>,
    pub dependency_errors: Vec<String>,
}

pub struct ReportView {
    pub server_error: Option<Seq<char>>,
    pub plugin_errors: Seq<Seq<char>>,
    pub warnings: Seq<Seq<char>>,
    pub dependency_errors: Seq<Seq<char>>,
}

impl View for ConfigReport {
    type V = ReportView;

    open spec fn view(&self) -> ReportView {
        ReportView {
            server_error: opt_string_view(self.server_error),
            plugin_errors: strings_view(self.plugin_errors@),
            warnings: strings_view(self.warnings@),
            dependency_errors: strings_view(self.dependency_errors@),
        }
    }
}

pub open spec fn plugin_error_message(name: Seq<char>, e: Seq<char>) -> Seq<char> {
    "Plugin '"@ + name + "': "@ + e
}

pub open spec fn self_dependency_message(name: Seq<char>) -> Seq<char> {
    "Plugin '"@ + name + "' has circular dependency on itself"@
}

pub open spec fn disabled_message(name: Seq<char>) -> Seq<char> {
    "Plugin '"@ + name + "' is disabled"@
}

pub open spec fn missing_dependency_message(name: Seq<char>, dep: Seq<char>) -> Seq<char> {
    "Plugin '"@ + name + "' depends on '"@ + dep + "' which is not enabled"@
}

/// The plugins whose own check failed, each with its error.
pub open spec fn spec_plugin_errors(ps: Seq<PluginFactsView>) -> Seq<Seq<char>>
    decreases ps.len(),
{
    if ps.len() == 0 {
        seq![]
    } else {
        let r = spec_plugin_errors(ps.drop_last());
        match ps.last().error {
            Some(e) => r.push(plugin_error_message(ps.last().name, e)),
            None => r,
        }
    }
}

/// The warnings on a plugin that passed its own check: it depends on
/// itself, and it is disabled.
pub open spec fn plugin_warnings_of(p: PluginFactsView) -> Seq<Seq<char>> {
    match p.error {
        Some(_) => seq![],
        None => (if p.deps.contains(p.name) {
            seq![self_dependency_message(p.name)]
        } else {
            seq![]
        }) + (if !p.enabled {
            seq![disabled_message(p.name)]
        } else {
            seq![]
        }),
    }
}

pub open spec fn spec_plugin_warnings(ps: Seq<PluginFactsView>) -> Seq<Seq<char>>
    decreases ps.len(),
{
    if ps.len() == 0 {
        seq![]
    } else {
        spec_plugin_warnings(ps.drop_last()) + plugin_warnings_of(ps.last())
    }
}

/// The names of the enabled plugins.
pub open spec fn enabled_names(ps: Seq<PluginFactsView>) -> Seq<Seq<char>>
    decreases ps.len(),
{
    if ps.len() == 0 {
        seq![]
    } else if ps.last().enabled {
        enabled_names(ps.drop_last()).push(ps.last().name)
    } else {
        enabled_names(ps.drop_last())
    }
}

/// The dependencies of the plugin `name` that are not among `enabled`.
pub open spec fn missing_of(name: Seq<char>, deps: Seq<Seq<char>>, enabled: Seq<Seq<char>>) -> Seq<
    Seq<char>,
>
    decreases deps.len(),
{
    if deps.len() == 0 {
        seq![]
    } else if enabled.contains(deps.last()) {
        missing_of(name, deps.drop_last(), enabled)
    } else {
        missing_of(name, deps.drop_last(), enabled).push(
            missing_dependency_message(name, deps.last()),
        )
    }
}

/// The missing dependencies of the enabled plugins among `ps`.
pub open spec fn spec_dependency_errors(ps: Seq<PluginFactsView>, enabled: Seq<Seq<char>>) -> Seq<
    Seq<char>,
>
    decreases ps.len(),
{
    if ps.len() == 0 {
        seq![]
    } else if ps.last().enabled {
        spec_dependency_errors(ps.drop_last(), enabled) + missing_of(
            ps.last().name,
            ps.last().deps,
            enabled,
        )
    } else {
        spec_dependency_errors(ps.drop_last(), enabled)
    }
}

/// The check of a configuration with the server at `hostname:port` and the
/// plugins `ps`.
pub open spec fn spec_config_report(port: u16, hostname: Seq<char>, ps: Seq<PluginFactsView>) -> ReportView {
    if port == 0 {
        ReportView {
            server_error: Some("Port cannot be 0"@),
            plugin_errors: seq![],
            warnings: seq![],
            dependency_errors: seq![],
        }
    } else if hostname.len() == 0 {
        ReportView {
            server_error: Some("Hostname is required"@),
            plugin_errors: seq![],
            warnings: seq![],
            dependency_errors: seq![],
        }
    } else {
        ReportView {
            server_error: None,
            plugin_errors: spec_plugin_errors(ps),
            warnings: spec_plugin_warnings(ps),
            dependency_errors: spec_dependency_errors(ps, enabled_names(ps)),
        }
    }
}

/// Whether `v` holds `s`.
fn contains_string(v: &Vec<String>, s: &str) -> (b: bool)
    ensures
        b == strings_view(v@).contains(s@),
{
    let ghost sv = strings_view(v@);
    let mut i: usize = 0;
    while i < v.len()
        invariant
            sv == strings_view(v@),
            i <= v@.len(),
            forall|k: int| 0 <= k < i ==> sv[k] != s@,
        decreases v@.len() - i,
    {
        if str_eq(v[i].as_str(), s) {
            assert(sv[i as int] == s@);
            return true;
        }
        i += 1;
    }
    false
}

fn push_string(v: &mut Vec<String>, s: String)
    ensures
        strings_view(final(v)@) == strings_view(old(v)@).push(s@),
{
    v.push(s);
    assert(strings_view(v@) =~= strings_view(old(v)@).push(s@));
}

fn quoted_name(name: &str) -> (r: String)
    ensures
        r@ == "Plugin '"@ + name@,
{
    let mut r = owned("Plugin '");
    push_str(&mut r, name);
    r
}

/// A check stopped by the server settings with the error `e`.
fn stopped(e: String) -> (r: ConfigReport)
    ensures
        r@ == (ReportView {
            server_error: Some(e@),
            plugin_errors: seq![],
            warnings: seq![],
            dependency_errors: seq![],
        }),
{
    let r = ConfigReport {
        server_error: Some(e),
        plugin_errors: Vec::new(),
        warnings: Vec::new(),
        dependency_errors: Vec::new(),
    };
    assert(r@.plugin_errors =~= seq![]);
    assert(r@.warnings =~= seq![]);
    assert(r@.dependency_errors =~= seq![]);
    r
}

/// Check the configuration `cfg`: a port of 0 or an empty hostname stops
/// the check with its error; otherwise every plugin is checked in turn.
pub fn validate_plugin_configs(cfg: &ConfigFacts) -> (r: ConfigReport)
    ensures
        r@ == spec_config_report(cfg.port, cfg.hostname@, plugin_views(cfg.plugins@)),
{
    if cfg.port == 0 {
        return stopped(owned("Port cannot be 0"));
    }
    if cfg.hostname.unicode_len() == 0 {
        return stopped(owned("Hostname is required"));
    }
    let ghost ps = plugin_views(cfg.plugins@);
    let mut errors: Vec<String> = Vec::new();
    let mut warnings: Vec<String> = Vec::new();
    let mut enabled: Vec<String> = Vec::new();
    let mut i: usize = 0;
    assert(ps.take(0) =~= Seq::<PluginFactsView>::empty());
    while i < cfg.plugins.len()
        invariant
            ps == plugin_views(cfg.plugins@),
            i <= ps.len(),
            strings_view(errors@) == spec_plugin_errors(ps.take(i as int)),
            strings_view(warnings@) == spec_plugin_warnings(ps.take(i as int)),
            strings_view(enabled@) == enabled_names(ps.take(i as int)),
        decreases ps.len() - i,
    {
        let p = &cfg.plugins[i];
        let ghost pv = ps[i as int];
        assert(pv == p@);
        assert(ps.take(i + 1).drop_last() =~= ps.take(i as int));
        assert(ps.take(i + 1).last() == pv);
        let ghost w0 = strings_view(warnings@);
        match &p.check_error {
            Some(e) => {
                let mut m = quoted_name(p.name.as_str());
                push_str(&mut m, "': ");
                push_str(&mut m, e.as_str());
                push_string(&mut errors, m);
                assert(w0 + plugin_warnings_of(pv) =~= w0);
            },
            None => {
                if contains_string(&p.dependencies, p.name.as_str()) {
                    let mut m = quoted_name(p.name.as_str());
                    push_str(&mut m, "' has circular dependency on itself");
                    push_string(&mut warnings, m);
                }
                let ghost w1 = strings_view(warnings@);
                if !p.enabled {
                    let mut m = quoted_name(p.name.as_str());
                    push_str(&mut m, "' is disabled");
                    push_string(&mut warnings, m);
                }
                assert(strings_view(warnings@) =~= w0 + plugin_warnings_of(pv));
            },
        }
        if p.enabled {
            push_string(&mut enabled, owned(p.name.as_str()));
        }
        i += 1;
    }
    assert(ps.take(ps.len() as int) =~= ps);
    let ghost en = enabled_names(ps);
    let mut deps: Vec<String> = Vec::new();
    let mut j: usize = 0;
    while j < cfg.plugins.len()
        invariant
            ps == plugin_views(cfg.plugins@),
            j <= ps.len(),
            strings_view(enabled@) == en,
            strings_view(deps@) == spec_dependency_errors(ps.take(j as int), en),
        decreases ps.len() - j,
    {
        let p = &cfg.plugins[j];
        let ghost pv = ps[j as int];
        assert(pv == p@);
        assert(ps.take(j + 1).drop_last() =~= ps.take(j as int));
        assert(ps.take(j + 1).last() == pv);
        if p.enabled {
            let ghost d0 = strings_view(deps@);
            let ghost ds = pv.deps;
            let mut k: usize = 0;
            assert(ds.take(0) =~= Seq::<Seq<char>>::empty());
            while k < p.dependencies.len()
                invariant
                    ds == strings_view(p.dependencies@),
                    k <= ds.len(),
                    strings_view(enabled@) == en,
                    strings_view(deps@) == d0 + missing_of(pv.name, ds.take(k as int), en),
                    pv.name == p.name@,
                decreases ds.len() - k,
            {
                let dep = &p.dependencies[k];
                assert(ds[k as int] == dep@);
                assert(ds.take(k + 1).drop_last() =~= ds.take(k as int));
                assert(ds.take(k + 1).last() == dep@);
                let ghost before = strings_view(deps@);
                if !contains_string(&enabled, dep.as_str()) {
                    let mut m = quoted_name(p.name.as_str());
                    push_str(&mut m, "' depends on '");
                    push_str(&mut m, dep.as_str());
                    push_str(&mut m, "' which is not enabled");
                    push_string(&mut deps, m);
                    assert(d0 + missing_of(pv.name, ds.take(k + 1), en) =~= before.push(
                        missing_dependency_message(pv.name, dep@),
                    ));
                }
                k += 1;
            }
            assert(ds.take(ds.len() as int) =~= ds);
        }
        j += 1;
    }
    assert(ps.take(ps.len() as int) =~= ps);
    let r = ConfigReport {
        server_error: None,
        plugin_errors: errors,
        warnings,
        dependency_errors: deps,
    };
    r
}

impl ConfigReport {
    /// Whether the configuration passed: no error in the server settings,
    /// in a plugin's own check or in a dependency. Warnings do not count.
    pub fn is_valid(&self) -> (b: bool)
        ensures
            b == (self@.server_error is None && self@.plugin_errors.len() == 0
                && self@.dependency_errors.len() == 0),
    {
        self.server_error.is_none() && self.plugin_errors.len() == 0
            && self.dependency_errors.len() == 0
    }
}

} // verus!
