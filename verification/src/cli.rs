//! The command line: which command the arguments ask for, the `set`
//! command's settings, and the `latest` alias of `download`.
use vstd::prelude::*;

use crate::config::LauncherConfig;
use crate::download::ManifestVersion;
use crate::text::{chars_eq, chars_of, parse_decimal, push_all, string_of};
use crate::ui::{parsed_u32, parsed_usize_or};

verus! {

/// What the command line asks for.
#[derive(Debug, Clone, PartialEq, Eq)]
pub enum CliCommand {
    Versions,
    Download { version: String },
    SetSetting { args: Vec<String> },
    Launch,
    Help,
    Unknown { command: String },
    Gui,
}

/// Why a `set` command was refused.
#[derive(Debug, Clone, PartialEq, Eq)]
pub enum SettingError {
    Usage,
    UnknownSetting { key: String },
}

/// How a refused `set` command reads.
pub open spec fn setting_error_message(e: SettingError) -> Seq<char> {
    match e {
        SettingError::Usage => "usage: set <key> <value>"@,
        SettingError::UnknownSetting { key } => "unknown setting '"@ + key@ + "'"@,
    }
}

impl SettingError {
    /// How the error reads.
    pub fn message(&self) -> (m: String)
        ensures
            m@ == setting_error_message(*self),
    {
        match self {
            SettingError::Usage => String::from_str("usage: set <key> <value>"),
            SettingError::UnknownSetting { key } => {
                let mut t = chars_of("unknown setting '");
                let k = chars_of(key.as_str());
                push_all(&mut t, k.as_slice());
                t.push('\'');
                assert(t@ =~= "unknown setting '"@ + key@ + "'"@) by {
                    reveal_strlit("'");
                }
                string_of(t.as_slice())
            },
        }
    }
}

/// A switch value the command line accepts as on: exactly `1`, `true`,
/// `yes` or `on`.
pub open spec fn switch_on(v: Seq<char>) -> bool {
    v == "1"@ || v == "true"@ || v == "yes"@ || v == "on"@
}

fn same(a: &[char], b: &str) -> (eq: bool)
    ensures
        eq == (a@ == b@),
{
    let bc = chars_of(b);
    chars_eq(a, bc.as_slice())
}

/// Whether a switch value is on (see `switch_on`).
pub fn parse_bool(value: &str) -> (b: bool)
    ensures
        b == switch_on(value@),
{
    let v = chars_of(value);
    same(v.as_slice(), "1") || same(v.as_slice(), "true") || same(v.as_slice(), "yes") || same(v.as_slice(), "on")
}

/// The settings after `set <key> <value>`, or nothing for an unknown key.
pub open spec fn set_spec(c: LauncherConfig, key: Seq<char>, value: String) -> Option<LauncherConfig> {
    if key == "name"@ {
        Some(LauncherConfig { username: Some(value), ..c })
    } else if key == "ram"@ {
        Some(LauncherConfig { memory_mb: parsed_u32(value@), ..c })
    } else if key == "version"@ {
        Some(LauncherConfig { selected_version: Some(value), ..c })
    } else if key == "java"@ {
        Some(LauncherConfig { java_path: Some(value), use_custom_java: true, ..c })
    } else if key == "threads"@ {
        Some(LauncherConfig { download_threads: parsed_usize_or(value@, c.download_threads), ..c })
    } else if key == "snapshots"@ {
        Some(LauncherConfig { show_all_versions: switch_on(value@), ..c })
    } else if key == "async-download"@ {
        Some(LauncherConfig { async_download: switch_on(value@), ..c })
    } else if key == "download-missing-libs"@ {
        Some(LauncherConfig { download_missing_libraries: switch_on(value@), ..c })
    } else if key == "save-launch-string"@ {
        Some(LauncherConfig { save_launch_string: switch_on(value@), ..c })
    } else if key == "keep-open"@ {
        Some(LauncherConfig { keep_launcher_open: switch_on(value@), ..c })
    } else {
        None
    }
}

/// Applies `set <key> <value>`: `args` are the key and the value.
pub fn apply_setting(config: &mut LauncherConfig, args: &Vec<String>) -> (r: Result<(), SettingError>)
    ensures
        args@.len() != 2 ==> (r == Err::<(), SettingError>(SettingError::Usage) && *final(config) == *old(config)),
        args@.len() == 2 ==> match set_spec(*old(config), args@[0]@, args@[1]) {
            Some(c) => r is Ok && *final(config) == c,
            None => r == Err::<(), SettingError>(SettingError::UnknownSetting { key: args@[0] })
                && *final(config) == *old(config),
        },
{
    if args.len() != 2 {
        return Err(SettingError::Usage);
    }
    let key = chars_of(args[0].as_str());
    let value = args[1].clone();
    let k = key.as_slice();
    if same(k, "name") {
        config.username = Some(value);
    } else if same(k, "ram") {
        let v = chars_of(value.as_str());
        config.memory_mb = match parse_decimal(v.as_slice(), 0xffff_ffffu64) {
            Some(n) => Some(n as u32),
            None => None,
        };
    } else if same(k, "version") {
        config.selected_version = Some(value);
    } else if same(k, "java") {
        config.java_path = Some(value);
        config.use_custom_java = true;
    } else if same(k, "threads") {
        let v = chars_of(value.as_str());
        match parse_decimal(v.as_slice(), usize::MAX as u64) {
            Some(n) => {
                config.download_threads = n as usize;
            },
            None => {},
        }
    } else if same(k, "snapshots") {
        config.show_all_versions = parse_bool(value.as_str());
    } else if same(k, "async-download") {
        config.async_download = parse_bool(value.as_str());
    } else if same(k, "download-missing-libs") {
        config.download_missing_libraries = parse_bool(value.as_str());
    } else if same(k, "save-launch-string") {
        config.save_launch_string = parse_bool(value.as_str());
    } else if same(k, "keep-open") {
        config.keep_launcher_open = parse_bool(value.as_str());
    } else {
        return Err(SettingError::UnknownSetting { key: args[0].clone() });
    }
    Ok(())
}

/// The version `download` is for: the one named, else the selected one,
/// else `latest`.
pub open spec fn download_target(args: Seq<String>, c: LauncherConfig) -> Seq<char> {
    if args.len() > 1 {
        args[1]@
    } else {
        match c.selected_version {
            Some(v) => v@,
            None => "latest"@,
        }
    }
}

/// Which kind of command the first argument names.
pub open spec fn command_kind(args: Seq<String>) -> int {
    if args.len() == 0 {
        0
    } else if args[0]@ == "versions"@ {
        1
    } else if args[0]@ == "download"@ {
        2
    } else if args[0]@ == "set"@ {
        3
    } else if args[0]@ == "launch"@ {
        4
    } else if args[0]@ == "help"@ || args[0]@ == "--help"@ || args[0]@ == "-h"@ {
        5
    } else {
        6
    }
}

/// `c` is the command that `args` ask for (see `command_kind`).
pub open spec fn is_command_for(cmd: CliCommand, args: Seq<String>, c: LauncherConfig) -> bool {
    match cmd {
        CliCommand::Gui => command_kind(args) == 0,
        CliCommand::Versions => command_kind(args) == 1,
        CliCommand::Download { version } => command_kind(args) == 2 && version@ == download_target(args, c),
        CliCommand::SetSetting { args: rest } => command_kind(args) == 3 && rest@ == args.skip(1),
        CliCommand::Launch => command_kind(args) == 4,
        CliCommand::Help => command_kind(args) == 5,
        CliCommand::Unknown { command } => command_kind(args) == 6 && command == args[0],
    }
}

/// Reads the command from the arguments after the program's name.
pub fn parse_command(args: &Vec<String>, config: &LauncherConfig) -> (cmd: CliCommand)
    ensures
        is_command_for(cmd, args@, *config),
{
    if args.len() == 0 {
        return CliCommand::Gui;
    }
    let a = chars_of(args[0].as_str());
    let first = a.as_slice();
    if same(first, "versions") {
        CliCommand::Versions
    } else if same(first, "download") {
        let version = if args.len() > 1 {
            args[1].clone()
        } else {
            match &config.selected_version {
                Some(v) => v.clone(),
                None => String::from_str("latest"),
            }
        };
        CliCommand::Download { version }
    } else if same(first, "set") {
        let mut rest: Vec<String> = Vec::new();
        let mut i: usize = 1;
        while i < args.len()
            invariant
                1 <= i <= args.len(),
                rest@ == args@.subrange(1, i as int),
            decreases args.len() - i,
        {
            rest.push(args[i].clone());
            assert(rest@ =~= args@.subrange(1, i + 1));
            i += 1;
        }
        assert(args@.subrange(1, args@.len() as int) =~= args@.skip(1));
        CliCommand::SetSetting { args: rest }
    } else if same(first, "launch") {
        CliCommand::Launch
    } else if same(first, "help") || same(first, "--help") || same(first, "-h") {
        CliCommand::Help
    } else {
        CliCommand::Unknown { command: args[0].clone() }
    }
}

/// How an unknown command is answered.
pub fn unknown_command_message(command: &str) -> (m: String)
    ensures
        m@ == "unknown command '"@ + command@ + "'. Run with 'help' for usage."@,
{
    let mut t = chars_of("unknown command '");
    let c = chars_of(command);
    push_all(&mut t, c.as_slice());
    let tail = chars_of("'. Run with 'help' for usage.");
    push_all(&mut t, tail.as_slice());
    string_of(t.as_slice())
}

/// The version `download` fetches for a name: the name itself, or for
/// `latest` the first version of the manifest, and an error when that is
/// empty.
pub fn resolve_latest_alias(version: &str, manifest: &Vec<ManifestVersion>) -> (r: Result<String, String>)
    ensures
        version@ != "latest"@ ==> (r matches Ok(v) && v@ == version@),
        version@ == "latest"@ && manifest@.len() > 0 ==> (r matches Ok(v) && v@ == manifest@[0].id@),
        version@ == "latest"@ && manifest@.len() == 0 ==> (r matches Err(e) && e@ == "no versions in manifest"@),
{
    let v = chars_of(version);
    if !same(v.as_slice(), "latest") {
        return Ok(String::from_str(version));
    }
    if manifest.len() > 0 {
        Ok(manifest[0].id.clone())
    } else {
        Err(String::from_str("no versions in manifest"))
    }
}

} // verus!
