//! The command line: its arguments, the checks they must pass before the
//! server starts (with the messages that explain a failure), the ports
//! suggested when the chosen one is taken, and how files in a plugin
//! directory are told apart.
use vstd::prelude::*;

use std::path::PathBuf;

use crate::server::{extension_of, lowercase, path_extension, to_lowercase};
use crate::syntax_parser::opt_string_view;
use crate::text::{decimal, join, owned, push_decimal, push_str, str_eq};

verus! {

broadcast use vstd::string::group_string_axioms;

/// Plugin type enumeration
#[derive(Debug, Clone, Copy, PartialEq, Eq, Structural)]
pub enum PluginType {
    /// Rust dynamic library
    Native,
    /// Script-based plugin
    Script,
    /// Configuration-only plugin
    Config,
    Unknown,
}

/// Discovered plugin information
pub struct DiscoveredPlugin {
    pub name: String,
    pub path: PathBuf,
    pub version: Option<String>,
    pub description: Option<String>,
    pub plugin_type: PluginType,
}

/// CLI arguments structure
pub struct Args {
    pub file: PathBuf,
    pub hostname: String,
    pub port: u16,
    pub config_file: Option<PathBuf>,
    pub plugins_dir: Option<PathBuf>,
    pub dev_mode: bool,
    pub list_plugins: bool,
    pub validate_config: bool,
}

/// What the file system says of a path named in the arguments.
pub struct PathFacts {
    /// The path as it is shown
    pub display: String,
    pub exists: bool,
    pub is_dir: bool,
}

/// What the file system says of the markdown file.
pub struct FileFacts {
    pub path: PathFacts,
    /// Why opening it failed, if it did
    pub open_error: Option<String>,
}

// ---------------------------------------------------------------------------
// Messages
// ---------------------------------------------------------------------------

pub open spec fn file_not_found_message(d: Seq<char>) -> Seq<char> {
    "Markdown file not found: "@ + d
        + "\n\nPlease check that:\n• The file path is correct\n• You have read permissions for the file\n• The file hasn't been moved or deleted\n\nExample: rune README.md"@
}

pub open spec fn file_is_dir_message(d: Seq<char>) -> Seq<char> {
    "Path is a directory, not a file: "@ + d
        + "\n\nPlease specify a markdown file, not a directory.\n\nExample: rune "@ + d
        + "/README.md"@
}

pub open spec fn unreadable_message(d: Seq<char>, e: Seq<char>) -> Seq<char> {
    "Cannot read file: "@ + d + "\nError: "@ + e
        + "\n\nPlease check that you have read permissions for this file."@
}

pub open spec fn wrong_extension_message(d: Seq<char>, ext: Seq<char>) -> Seq<char> {
    "File must be a markdown file (.md or .markdown): "@ + d + "\n\nCurrent extension: ."@ + ext
        + "\n\nSupported extensions:\n• .md\n• .markdown\n\nExample: rune document.md"@
}

pub open spec fn no_extension_message(d: Seq<char>) -> Seq<char> {
    "File must have a markdown extension (.md or .markdown): "@ + d
        + "\n\nPlease rename your file to include a proper extension.\n\nExample: mv "@ + d + " "@
        + d + ".md"@
}

pub open spec fn zero_port_message() -> Seq<char> {
    "Port number cannot be 0.\n\nPlease specify a valid port number between 1 and 65535.\n\nExamples:\n• rune -p 3000 README.md  (default port)\n• rune -p 8080 README.md  (common alternative)\n• rune -p 8000 README.md  (development port)"@
}

pub open spec fn empty_hostname_message() -> Seq<char> {
    "Hostname cannot be empty.\n\nValid hostname examples:\n• 127.0.0.1 (localhost only)\n• 0.0.0.0 (all interfaces)\n• localhost (local machine)"@
}

pub open spec fn config_not_found_message(d: Seq<char>) -> Seq<char> {
    "Configuration file not found: "@ + d
        + "\n\nPlease check that:\n• The config file path is correct\n• You have read permissions for the file\n• The file exists and is accessible\n\nExample: rune --config config.json README.md"@
}

pub open spec fn config_is_dir_message(d: Seq<char>) -> Seq<char> {
    "Configuration path is a directory, not a file: "@ + d
        + "\n\nPlease specify a JSON configuration file.\n\nExample: rune --config "@ + d
        + "/config.json README.md"@
}

pub open spec fn plugins_not_dir_message(d: Seq<char>) -> Seq<char> {
    "Plugins path is not a directory: "@ + d
        + "\n\nPlease specify a directory containing plugin files.\n\nExample: rune --plugins-dir ./plugins README.md"@
}

pub open spec fn utility_config_missing_message(d: Seq<char>) -> Seq<char> {
    "Configuration file not found: "@ + d
        + "\n\nCannot validate a configuration file that doesn't exist.\n\nExample: rune --validate-config --config config.json"@
}

// ---------------------------------------------------------------------------
// Validation
// ---------------------------------------------------------------------------

/// The views of what the file system says of a path.
pub struct PathSeen {
    pub display: Seq<char>,
    pub exists: bool,
    pub is_dir: bool,
}

pub open spec fn seen(p: PathFacts) -> PathSeen {
    PathSeen { display: p.display@, exists: p.exists, is_dir: p.is_dir }
}

pub open spec fn opt_seen(p: Option<&PathFacts>) -> Option<PathSeen> {
    match p {
        Some(f) => Some(seen(*f)),
        None => None,
    }
}

/// What validating the arguments gives: the first failing check's message,
/// in the order the checks run; utility commands check only that a given
/// configuration file exists.
pub open spec fn spec_validate(
    utility: bool,
    file: PathSeen,
    open_error: Option<Seq<char>>,
    port: u16,
    hostname: Seq<char>,
    config: Option<PathSeen>,
    plugins: Option<PathSeen>,
) -> Result<(), Seq<char>> {
    let d = file.display;
    if utility {
        match config {
            Some(c) => if !c.exists {
                Err(utility_config_missing_message(c.display))
            } else {
                Ok(())
            },
            None => Ok(()),
        }
    } else if !file.exists {
        Err(file_not_found_message(d))
    } else if file.is_dir {
        Err(file_is_dir_message(d))
    } else if open_error is Some {
        Err(unreadable_message(d, open_error->0))
    } else if path_extension(d) is None {
        Err(no_extension_message(d))
    } else if lowercase(path_extension(d)->0) != "md"@ && lowercase(path_extension(d)->0)
        != "markdown"@ {
        Err(wrong_extension_message(d, lowercase(path_extension(d)->0)))
    } else if port == 0 {
        Err(zero_port_message())
    } else if hostname.len() == 0 {
        Err(empty_hostname_message())
    } else if config is Some && !config->0.exists {
        Err(config_not_found_message(config->0.display))
    } else if config is Some && config->0.is_dir {
        Err(config_is_dir_message(config->0.display))
    } else if plugins is Some && plugins->0.exists && !plugins->0.is_dir {
        Err(plugins_not_dir_message(plugins->0.display))
    } else {
        Ok(())
    }
}

pub open spec fn opt_error_view(e: Option<String>) -> Option<Seq<char>> {
    opt_string_view(e)
}

fn message2(a: &str, b: &str) -> (r: String)
    ensures
        r@ == a@ + b@,
{
    let mut r = owned(a);
    push_str(&mut r, b);
    r
}

fn message3(a: &str, b: &str, c: &str) -> (r: String)
    ensures
        r@ == a@ + b@ + c@,
{
    let mut r = message2(a, b);
    push_str(&mut r, c);
    r
}

fn message5(a: &str, b: &str, c: &str, d: &str, e: &str) -> (r: String)
    ensures
        r@ == a@ + b@ + c@ + d@ + e@,
{
    let mut r = message3(a, b, c);
    push_str(&mut r, d);
    push_str(&mut r, e);
    r
}

impl Args {
    /// Validate the arguments against what the file system says of the
    /// paths they name (`config` and `plugins` exactly when the arguments
    /// give a configuration file and a plugins directory).
    pub fn validate(&self, file: &FileFacts, config: Option<&PathFacts>, plugins: Option<&PathFacts>) -> (r:
        Result<(), String>)
        requires
            config.is_some() == self.config_file.is_some(),
            plugins.is_some() == self.plugins_dir.is_some(),
        ensures
            match (r, spec_validate(
                self.list_plugins || self.validate_config,
                seen(file.path),
                opt_error_view(file.open_error),
                self.port,
                self.hostname@,
                opt_seen(config),
                opt_seen(plugins),
            )) {
                (Ok(()), Ok(())) => true,
                (Err(e), Err(m)) => e@ == m,
                _ => false,
            },
    {
        if self.list_plugins || self.validate_config {
            return match config {
                Some(c) => if !c.exists {
                    Err(
                        message3(
                            "Configuration file not found: ",
                            c.display.as_str(),
                            "\n\nCannot validate a configuration file that doesn't exist.\n\nExample: rune --validate-config --config config.json",
                        ),
                    )
                } else {
                    Ok(())
                },
                None => Ok(()),
            };
        }
        let d = file.path.display.as_str();
        if !file.path.exists {
            return Err(
                message3(
                    "Markdown file not found: ",
                    d,
                    "\n\nPlease check that:\n• The file path is correct\n• You have read permissions for the file\n• The file hasn't been moved or deleted\n\nExample: rune README.md",
                ),
            );
        }
        if file.path.is_dir {
            return Err(
                message5(
                    "Path is a directory, not a file: ",
                    d,
                    "\n\nPlease specify a markdown file, not a directory.\n\nExample: rune ",
                    d,
                    "/README.md",
                ),
            );
        }
        match &file.open_error {
            Some(e) => {
                return Err(
                    message5(
                        "Cannot read file: ",
                        d,
                        "\nError: ",
                        e.as_str(),
                        "\n\nPlease check that you have read permissions for this file.",
                    ),
                );
            },
            None => {},
        }
        match extension_of(d) {
            Some(ext) => {
                let ext_str = to_lowercase(ext.as_str());
                if !str_eq(ext_str.as_str(), "md") && !str_eq(ext_str.as_str(), "markdown") {
                    return Err(
                        message5(
                            "File must be a markdown file (.md or .markdown): ",
                            d,
                            "\n\nCurrent extension: .",
                            ext_str.as_str(),
                            "\n\nSupported extensions:\n• .md\n• .markdown\n\nExample: rune document.md",
                        ),
                    );
                }
            },
            None => {
                let mut m = message5(
                    "File must have a markdown extension (.md or .markdown): ",
                    d,
                    "\n\nPlease rename your file to include a proper extension.\n\nExample: mv ",
                    d,
                    " ",
                );
                push_str(&mut m, d);
                push_str(&mut m, ".md");
                return Err(m);
            },
        }
        if self.port == 0 {
            return Err(
                owned(
                    "Port number cannot be 0.\n\nPlease specify a valid port number between 1 and 65535.\n\nExamples:\n• rune -p 3000 README.md  (default port)\n• rune -p 8080 README.md  (common alternative)\n• rune -p 8000 README.md  (development port)",
                ),
            );
        }
        if self.hostname.unicode_len() == 0 {
            return Err(
                owned(
                    "Hostname cannot be empty.\n\nValid hostname examples:\n• 127.0.0.1 (localhost only)\n• 0.0.0.0 (all interfaces)\n• localhost (local machine)",
                ),
            );
        }
        match config {
            Some(c) => {
                if !c.exists {
                    return Err(
                        message3(
                            "Configuration file not found: ",
                            c.display.as_str(),
                            "\n\nPlease check that:\n• The config file path is correct\n• You have read permissions for the file\n• The file exists and is accessible\n\nExample: rune --config config.json README.md",
                        ),
                    );
                }
                if c.is_dir {
                    return Err(
                        message5(
                            "Configuration path is a directory, not a file: ",
                            c.display.as_str(),
                            "\n\nPlease specify a JSON configuration file.\n\nExample: rune --config ",
                            c.display.as_str(),
                            "/config.json README.md",
                        ),
                    );
                }
            },
            None => {},
        }
        match plugins {
            Some(p) => {
                if p.exists && !p.is_dir {
                    return Err(
                        message3(
                            "Plugins path is not a directory: ",
                            p.display.as_str(),
                            "\n\nPlease specify a directory containing plugin files.\n\nExample: rune --plugins-dir ./plugins README.md",
                        ),
                    );
                }
            },
            None => {},
        }
        Ok(())
    }
}

// ---------------------------------------------------------------------------
// Ports
// ---------------------------------------------------------------------------

/// The ports suggested when the chosen one is taken, in order.
pub open spec fn suggested_ports() -> Seq<u16> {
    seq![3001u16, 3002, 8000, 8080, 8888]
}

/// `s` without `p`, in order.
pub open spec fn without(s: Seq<u16>, p: u16) -> Seq<u16>
    decreases s.len(),
{
    if s.len() == 0 {
        seq![]
    } else if s.last() == p {
        without(s.drop_last(), p)
    } else {
        without(s.drop_last(), p).push(s.last())
    }
}

/// The ports to try in place of `port`: the suggested ones other than it.
pub fn alternative_ports(port: u16) -> (v: Vec<u16>)
    ensures
        v@ == without(suggested_ports(), port),
{
    let candidates: Vec<u16> = vec![3001, 3002, 8000, 8080, 8888];
    let mut v: Vec<u16> = Vec::new();
    let mut i: usize = 0;
    while i < candidates.len()
        invariant
            candidates@ == suggested_ports(),
            i <= candidates@.len(),
            v@ == without(candidates@.take(i as int), port),
        decreases candidates@.len() - i,
    {
        assert(candidates@.take(i + 1).drop_last() =~= candidates@.take(i as int));
        if candidates[i] != port {
            v.push(candidates[i]);
        }
        i += 1;
    }
    assert(candidates@.take(5) =~= candidates@);
    v
}

/// The command line suggested for a free port.
pub open spec fn suggestion_line(p: u16, hostname: Seq<char>, file: Seq<char>) -> Seq<char> {
    "  rune -p "@ + decimal(p as nat) + " "@ + hostname + " "@ + file
}

/// The suggestion lines for the free ports.
pub open spec fn suggestion_lines(ports: Seq<u16>, hostname: Seq<char>, file: Seq<char>) -> Seq<
    Seq<char>,
> {
    ports.map_values(|p: u16| suggestion_line(p, hostname, file))
}

/// What a taken port is answered with, given the free ports found.
pub open spec fn spec_port_in_use(
    port: u16,
    hostname: Seq<char>,
    file: Seq<char>,
    error: Seq<char>,
    available: Seq<u16>,
) -> Seq<char> {
    let suggestions = if available.len() == 0 {
        "Try using a different port number."@
    } else {
        "Try one of these available ports:\n"@ + join(suggestion_lines(available, hostname, file), "\n"@)
    };
    "Port "@ + decimal(port as nat) + " is already in use on "@ + hostname + "\nError: "@ + error
        + "\n\n"@ + suggestions + "\n\nYou can also:\n• Stop the process using port "@ + decimal(
        port as nat,
    ) + "\n• Use 'lsof -i :"@ + decimal(port as nat)
        + " ' to find what's using the port\n• Choose a different port with -p <port>"@
}

/// The message for a port that is already taken: the error, the free ports
/// to try (or a plain hint when none is free), and what else to do.
pub fn port_in_use_message(
    port: u16,
    hostname: &str,
    file: &str,
    error: &str,
    available: &[u16],
) -> (r: String)
    ensures
        r@ == spec_port_in_use(port, hostname@, file@, error@, available@),
{
    let mut suggestions = String::new();
    if available.len() == 0 {
        push_str(&mut suggestions, "Try using a different port number.");
    } else {
        push_str(&mut suggestions, "Try one of these available ports:\n");
        let ghost head = suggestions@;
        let mut i: usize = 0;
        while i < available.len()
            invariant
                i <= available@.len(),
                available@.len() > 0,
                head == "Try one of these available ports:\n"@,
                suggestions@ == head + join(
                    suggestion_lines(available@.take(i as int), hostname@, file@),
                    "\n"@,
                ),
            decreases available@.len() - i,
        {
            let ghost before = suggestions@;
            let ghost lines = suggestion_lines(available@.take(i as int), hostname@, file@);
            let ghost next = suggestion_lines(available@.take(i + 1), hostname@, file@);
            assert(next =~= lines.push(suggestion_line(available@[i as int], hostname@, file@)));
            if i > 0 {
                push_str(&mut suggestions, "\n");
            }
            push_str(&mut suggestions, "  rune -p ");
            push_decimal(&mut suggestions, available[i] as u64);
            push_str(&mut suggestions, " ");
            push_str(&mut suggestions, hostname);
            push_str(&mut suggestions, " ");
            push_str(&mut suggestions, file);
            proof {
                if i == 0 {
                    assert(lines.len() == 0);
                    assert(join(next, "\n"@) == next[0]);
                    assert(suggestions@ =~= head + join(next, "\n"@));
                } else {
                    assert(next.drop_last() =~= lines);
                    assert(suggestions@ =~= before + "\n"@ + suggestion_line(
                        available@[i as int],
                        hostname@,
                        file@,
                    ));
                    assert(suggestions@ =~= head + join(next, "\n"@));
                }
            }
            i += 1;
        }
        assert(available@.take(i as int) =~= available@);
    }
    let mut r = owned("Port ");
    push_decimal(&mut r, port as u64);
    push_str(&mut r, " is already in use on ");
    push_str(&mut r, hostname);
    push_str(&mut r, "\nError: ");
    push_str(&mut r, error);
    push_str(&mut r, "\n\n");
    push_str(&mut r, suggestions.as_str());
    push_str(&mut r, "\n\nYou can also:\n• Stop the process using port ");
    push_decimal(&mut r, port as u64);
    push_str(&mut r, "\n• Use 'lsof -i :");
    push_decimal(&mut r, port as u64);
    push_str(&mut r, " ' to find what's using the port\n• Choose a different port with -p <port>");
    r
}

/// The message for a host name that does not resolve to an address.
pub fn invalid_hostname_message(hostname: &str, error: &str) -> (r: String)
    ensures
        r@ == "Invalid hostname '"@ + hostname@ + "': "@ + error@
            + "\n\nPlease use a valid hostname or IP address:\n• 127.0.0.1 (localhost)\n• 0.0.0.0 (all interfaces)\n• localhost (local machine)"@,
{
    message5(
        "Invalid hostname '",
        hostname,
        "': ",
        error,
        "\n\nPlease use a valid hostname or IP address:\n• 127.0.0.1 (localhost)\n• 0.0.0.0 (all interfaces)\n• localhost (local machine)",
    )
}

/// The message for a host name that resolved to no address.
pub fn unresolved_hostname_message(hostname: &str) -> (r: String)
    ensures
        r@ == "Could not resolve hostname: "@ + hostname@
            + "\n\nPlease check your network configuration and try again."@,
{
    message3(
        "Could not resolve hostname: ",
        hostname,
        "\n\nPlease check your network configuration and try again.",
    )
}

/// The address the server binds: host and port.
pub fn bind_address(hostname: &str, port: u16) -> (r: String)
    ensures
        r@ == hostname@ + ":"@ + decimal(port as nat),
{
    let mut r = message2(hostname, ":");
    push_decimal(&mut r, port as u64);
    r
}

// ---------------------------------------------------------------------------
// Plugin directories
// ---------------------------------------------------------------------------

/// What an entry of a plugin directory is.
#[derive(Debug, Clone, Copy, PartialEq, Eq, Structural)]
pub enum EntryKind {
    /// A hidden entry, skipped
    Hidden,
    /// A directory: a plugin if it holds a `plugin.json` manifest
    Directory,
    /// A file whose extension tells its type
    Typed(PluginType),
    /// A JSON file named like a plugin: a plugin if it is a manifest
    Manifest,
    /// Anything else
    Unknown,
}

/// The type that a plugin file's extension tells: native libraries and
/// scripts.
pub open spec fn extension_type(ext: Seq<char>) -> PluginType {
    if ext == "so"@ || ext == "dll"@ || ext == "dylib"@ {
        PluginType::Native
    } else if ext == "js"@ || ext == "py"@ || ext == "lua"@ {
        PluginType::Script
    } else {
        PluginType::Unknown
    }
}

/// What a directory entry named `name` is: hidden entries are skipped;
/// directories may hold a manifest; files go by their extension, and a JSON
/// file whose name mentions `plugin` may be a manifest.
pub open spec fn spec_classify(name: Seq<char>, is_dir: bool, path: Seq<char>) -> EntryKind {
    if name.len() > 0 && name[0] == '.' {
        EntryKind::Hidden
    } else if is_dir {
        EntryKind::Directory
    } else {
        match path_extension(path) {
            Some(ext) => if ext == "json"@ {
                if crate::text::contains_seq(name, "plugin"@) {
                    EntryKind::Manifest
                } else {
                    EntryKind::Unknown
                }
            } else if extension_type(ext) == PluginType::Unknown {
                EntryKind::Unknown
            } else {
                EntryKind::Typed(extension_type(ext))
            },
            None => EntryKind::Unknown,
        }
    }
}

/// Classify the directory entry named `name` at `path`.
pub fn classify_entry(name: &str, is_dir: bool, path: &str) -> (k: EntryKind)
    ensures
        k == spec_classify(name@, is_dir, path@),
{
    if name.unicode_len() > 0 && name.get_char(0) == '.' {
        return EntryKind::Hidden;
    }
    if is_dir {
        return EntryKind::Directory;
    }
    match extension_of(path) {
        Some(ext) => {
            let e = ext.as_str();
            if str_eq(e, "json") {
                if crate::text::str_contains(name, "plugin") {
                    EntryKind::Manifest
                } else {
                    EntryKind::Unknown
                }
            } else if str_eq(e, "so") || str_eq(e, "dll") || str_eq(e, "dylib") {
                EntryKind::Typed(PluginType::Native)
            } else if str_eq(e, "js") || str_eq(e, "py") || str_eq(e, "lua") {
                EntryKind::Typed(PluginType::Script)
            } else {
                EntryKind::Unknown
            }
        },
        None => EntryKind::Unknown,
    }
}

} // verus!
