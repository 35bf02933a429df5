//! The host platform: which operating system the launcher runs on, where
//! the game directory lives there, and the window sizes used on it.
use vstd::prelude::*;

use crate::text::{
    chars_eq, chars_of, find_char, find_char_index, join_path, join_path_str, parse_decimal, parse_unsigned,
    path_join, slice_chars, split_chars, split_spec, string_of, views,
};

verus! {

/// The operating systems the launcher tells apart.
#[derive(Debug, Clone, Copy, PartialEq, Eq, Structural)]
pub enum OperatingSystem {
    Windows,
    Linux,
    MacOs,
    Other,
}

/// The host facts the launcher reads from its environment. The home
/// directory is kept as a string.
#[derive(Debug, Clone, PartialEq, Eq)]
pub struct RuntimeEnvironment {
    pub os: OperatingSystem,
    pub home_dir: Option<String>,
}

/// Inner sizes of the launcher's three windows, in points.
#[derive(Debug, Clone, Copy, PartialEq, Eq)]
pub struct UiLayout {
    pub main_window: (u32, u32),
    pub downloader_window: (u32, u32),
    pub settings_window: (u32, u32),
}

/// The system that Rust names `name` (`std::env::consts::OS`).
pub open spec fn os_from_name(name: Seq<char>) -> OperatingSystem {
    if name == "windows"@ {
        OperatingSystem::Windows
    } else if name == "linux"@ {
        OperatingSystem::Linux
    } else if name == "macos"@ {
        OperatingSystem::MacOs
    } else {
        OperatingSystem::Other
    }
}

fn same_chars(a: &[char], b: &str) -> (eq: bool)
    ensures
        eq == (a@ == b@),
{
    let bc = chars_of(b);
    crate::text::chars_eq(a, bc.as_slice())
}

impl OperatingSystem {
    /// The system that Rust names `name`, as `std::env::consts::OS` gives it.
    pub fn from_name(name: &str) -> (os: Self)
        ensures
            os == os_from_name(name@),
    {
        let n = chars_of(name);
        if same_chars(n.as_slice(), "windows") {
            OperatingSystem::Windows
        } else if same_chars(n.as_slice(), "linux") {
            OperatingSystem::Linux
        } else if same_chars(n.as_slice(), "macos") {
            OperatingSystem::MacOs
        } else {
            OperatingSystem::Other
        }
    }
}

/// Where the game directory lives: `%APPDATA%\.minecraft` on Windows
/// (`AppData/Roaming` under the home directory when `APPDATA` is unset),
/// `Library/Application Support/minecraft` on macOS, `.minecraft` in the
/// home directory elsewhere; nothing without a home directory.
pub open spec fn minecraft_dir_spec(os: OperatingSystem, home: Option<Seq<char>>, appdata: Option<
    Seq<char>,
>) -> Option<Seq<char>> {
    match home {
        None => None,
        Some(h) => Some(
            match os {
                OperatingSystem::Windows => path_join(
                    match appdata {
                        Some(a) => a,
                        None => path_join(path_join(h, "AppData"@), "Roaming"@),
                    },
                    ".minecraft"@,
                ),
                OperatingSystem::MacOs => path_join(
                    path_join(path_join(h, "Library"@), "Application Support"@),
                    "minecraft"@,
                ),
                _ => path_join(h, ".minecraft"@),
            },
        ),
    }
}

/// The window sizes used on each system.
pub open spec fn layout_for(os: OperatingSystem) -> UiLayout {
    match os {
        OperatingSystem::Windows => UiLayout {
            main_window: (350, 255),
            downloader_window: (200, 120),
            settings_window: (335, 255),
        },
        OperatingSystem::MacOs => UiLayout {
            main_window: (350, 245),
            downloader_window: (250, 140),
            settings_window: (350, 315),
        },
        _ => UiLayout {
            main_window: (350, 280),
            downloader_window: (300, 160),
            settings_window: (350, 315),
        },
    }
}

/// The file name of the Java launcher on a system.
pub open spec fn java_executable_spec(os: OperatingSystem) -> Seq<char> {
    if os == OperatingSystem::Windows {
        "java.exe"@
    } else {
        "java"@
    }
}

impl RuntimeEnvironment {
    /// The game directory, given the value of `APPDATA` where it is set.
    pub fn minecraft_directory(&self, appdata: Option<String>) -> (dir: Option<String>)
        ensures
            dir.deep_view() == minecraft_dir_spec(self.os, self.home_dir.deep_view(), appdata.deep_view()),
    {
        let home = match &self.home_dir {
            None => {
                return None;
            },
            Some(h) => chars_of(h.as_str()),
        };
        let dir = match self.os {
            OperatingSystem::Windows => {
                let base = match &appdata {
                    Some(a) => chars_of(a.as_str()),
                    None => {
                        let app = join_path_str(home.as_slice(), "AppData");
                        join_path_str(app.as_slice(), "Roaming")
                    },
                };
                join_path_str(base.as_slice(), ".minecraft")
            },
            OperatingSystem::MacOs => {
                let lib = join_path_str(home.as_slice(), "Library");
                let support = join_path_str(lib.as_slice(), "Application Support");
                join_path_str(support.as_slice(), "minecraft")
            },
            _ => join_path_str(home.as_slice(), ".minecraft"),
        };
        Some(string_of(dir.as_slice()))
    }

    /// The window sizes for this system.
    pub fn ui_layout(&self) -> (layout: UiLayout)
        ensures
            layout == layout_for(self.os),
    {
        match self.os {
            OperatingSystem::Windows => UiLayout {
                main_window: (350, 255),
                downloader_window: (200, 120),
                settings_window: (335, 255),
            },
            OperatingSystem::MacOs => UiLayout {
                main_window: (350, 245),
                downloader_window: (250, 140),
                settings_window: (350, 315),
            },
            _ => UiLayout {
                main_window: (350, 280),
                downloader_window: (300, 160),
                settings_window: (350, 315),
            },
        }
    }

    /// The file name of the Java launcher on this system.
    pub fn java_executable(&self) -> (name: String)
        ensures
            name@ == java_executable_spec(self.os),
    {
        match self.os {
            OperatingSystem::Windows => String::from_str("java.exe"),
            _ => String::from_str("java"),
        }
    }

    /// Where Java sits under a `JAVA_HOME` directory: `bin/` and the
    /// launcher's file name.
    pub fn java_home_candidate(&self, java_home: &str) -> (path: String)
        ensures
            path@ == path_join(path_join(java_home@, "bin"@), java_executable_spec(self.os)),
    {
        let home = chars_of(java_home);
        let bin = join_path_str(home.as_slice(), "bin");
        let exe = self.java_executable();
        let p = join_path_str(bin.as_slice(), exe.as_str());
        string_of(p.as_slice())
    }

    /// The places a `PATH` value offers for the Java launcher, in order:
    /// each entry between separators joined with the launcher's name.
    pub fn path_candidates(&self, path_value: &str, separator: char) -> (paths: Vec<String>)
        ensures
            paths.deep_view() == split_spec(path_value@, separator).map_values(
                |entry: Seq<char>| path_join(entry, java_executable_spec(self.os)),
            ),
    {
        let value = chars_of(path_value);
        let entries = split_chars(value.as_slice(), separator);
        let exe = chars_of(self.java_executable().as_str());
        let mut out: Vec<String> = Vec::new();
        let mut i: usize = 0;
        while i < entries.len()
            invariant
                i <= entries.len(),
                exe@ == java_executable_spec(self.os),
                crate::text::views(entries@) == split_spec(path_value@, separator),
                out.deep_view() == crate::text::views(entries@).take(i as int).map_values(
                    |entry: Seq<char>| path_join(entry, java_executable_spec(self.os)),
                ),
            decreases entries.len() - i,
        {
            let joined = join_path(entries[i].as_slice(), exe.as_slice());
            let ghost prev = out.deep_view();
            let s = string_of(joined.as_slice());
            out.push(s);
            proof {
                assert(out.deep_view() =~= prev.push(s@));
                assert(crate::text::views(entries@)[i as int] == entries@[i as int]@);
                assert(out.deep_view() =~= crate::text::views(entries@).take(i + 1).map_values(
                    |entry: Seq<char>| path_join(entry, java_executable_spec(self.os)),
                ));
            }
            i += 1;
        }
        assert(crate::text::views(entries@).take(entries.len() as int) =~= crate::text::views(entries@));
        out
    }
}


/// The text between the first two double quotes of `s`.
pub open spec fn quoted_part(s: Seq<char>) -> Option<Seq<char>> {
    let i = find_char(s, '"');
    if i < 0 {
        None
    } else {
        let rest = s.skip(i + 1);
        let j = find_char(rest, '"');
        if j < 0 {
            None
        } else {
            Some(rest.take(j))
        }
    }
}

/// The decimal digits `s` starts with.
pub open spec fn leading_digits(s: Seq<char>) -> Seq<char>
    decreases s.len(),
{
    if s.len() > 0 && '0' <= s[0] <= '9' {
        seq![s[0]] + leading_digits(s.drop_first())
    } else {
        Seq::empty()
    }
}

/// The Java major version that `java -version` reports in `output`: in the
/// first quoted version, the number after `1.` for the old `1.x` scheme,
/// else the number it starts with.
pub open spec fn java_major_spec(output: Seq<char>) -> Option<u32> {
    match quoted_part(output) {
        None => None,
        Some(v) => {
            let parts = split_spec(v, '.');
            let piece = if parts.len() > 1 && parts[0] == "1"@ {
                parts[1]
            } else {
                parts[0]
            };
            match parse_unsigned(leading_digits(piece)) {
                Some(n) => if n <= u32::MAX {
                    Some(n as u32)
                } else {
                    None
                },
                None => None,
            }
        },
    }
}

fn leading_digits_of(s: &[char]) -> (d: Vec<char>)
    ensures
        d@ == leading_digits(s@),
{
    let mut d: Vec<char> = Vec::new();
    let mut i: usize = 0;
    assert(s@.skip(0) =~= s@);
    while i < s.len() && '0' <= s[i] && s[i] <= '9'
        invariant
            i <= s.len(),
            d@ + leading_digits(s@.skip(i as int)) == leading_digits(s@),
        decreases s.len() - i,
    {
        assert(s@.skip(i as int)[0] == s@[i as int]);
        assert(s@.skip(i as int).drop_first() =~= s@.skip(i + 1));
        let ghost before = d@;
        d.push(s[i]);
        assert(before + leading_digits(s@.skip(i as int)) =~= d@ + leading_digits(s@.skip(i + 1)));
        i += 1;
    }
    if i < s.len() {
        assert(s@.skip(i as int)[0] == s@[i as int]);
    }
    assert(leading_digits(s@.skip(i as int)) =~= Seq::<char>::empty());
    assert(d@ + Seq::<char>::empty() =~= d@);
    d
}

/// The Java major version that `java -version` reports in its output (see
/// `java_major_spec`).
pub fn java_major_of_output(output: &str) -> (m: Option<u32>)
    ensures
        m == java_major_spec(output@),
{
    let s = chars_of(output);
    let i = match find_char_index(s.as_slice(), '"') {
        Some(i) => i,
        None => {
            return None;
        },
    };
    let n = s.len();
    assert(i < n);
    let rest = slice_chars(s.as_slice(), i + 1, n);
    assert(rest@ =~= output@.skip(i + 1));
    let j = match find_char_index(rest.as_slice(), '"') {
        Some(j) => j,
        None => {
            return None;
        },
    };
    let v = slice_chars(rest.as_slice(), 0, j);
    assert(v@ =~= rest@.take(j as int));
    let parts = split_chars(v.as_slice(), '.');
    let ghost pv = views(parts@);
    proof {
        crate::natives::lemma_split_has_a_piece(v@, '.');
    }
    assert(pv[0] == parts@[0]@);
    let one = chars_of("1");
    let piece = if parts.len() > 1 && chars_eq(parts[0].as_slice(), one.as_slice()) {
        assert(pv[1] == parts@[1]@);
        &parts[1]
    } else {
        &parts[0]
    };
    let d = leading_digits_of(piece.as_slice());
    assert(d@ == leading_digits(if pv.len() > 1 && pv[0] == "1"@ {
        pv[1]
    } else {
        pv[0]
    }));
    match parse_decimal(d.as_slice(), 0xffff_ffffu64) {
        Some(n) => Some(n as u32),
        None => None,
    }
}

/// The first found Java of exactly the required major version.
pub open spec fn first_exact_java(c: Seq<(String, Option<u32>)>, required: u32) -> Option<Seq<char>>
    decreases c.len(),
{
    if c.len() == 0 {
        None
    } else if c[0].1 == Some(required) {
        Some(c[0].0@)
    } else {
        first_exact_java(c.drop_first(), required)
    }
}

/// The first found Java of a newer major version than required.
pub open spec fn first_newer_java(c: Seq<(String, Option<u32>)>, required: u32) -> Option<Seq<char>>
    decreases c.len(),
{
    if c.len() == 0 {
        None
    } else if c[0].1 matches Some(m) && m > required {
        Some(c[0].0@)
    } else {
        first_newer_java(c.drop_first(), required)
    }
}

/// The Java to run a version with among the installations found, each
/// with the major version it reports: the first of the required major
/// version, else the first newer one, else the first one found.
pub open spec fn chosen_java_spec(c: Seq<(String, Option<u32>)>, required: u32) -> Option<Seq<char>> {
    match first_exact_java(c, required) {
        Some(p) => Some(p),
        None => match first_newer_java(c, required) {
            Some(p) => Some(p),
            None => if c.len() > 0 {
                Some(c[0].0@)
            } else {
                None
            },
        },
    }
}

/// Chooses the Java to run a version with (see `chosen_java_spec`).
pub fn java_executable_for_major(found: &Vec<(String, Option<u32>)>, required: u32) -> (java: Option<String>)
    ensures
        java.deep_view() == chosen_java_spec(found@, required),
{
    let mut i: usize = 0;
    assert(found@.skip(0) =~= found@);
    while i < found.len()
        invariant
            i <= found.len(),
            first_exact_java(found@, required) == first_exact_java(found@.skip(i as int), required),
        decreases found.len() - i,
    {
        assert(found@.skip(i as int)[0] == found@[i as int]);
        assert(found@.skip(i as int).drop_first() =~= found@.skip(i + 1));
        if found[i].1 == Some(required) {
            return Some(found[i].0.clone());
        }
        i += 1;
    }
    let mut k: usize = 0;
    while k < found.len()
        invariant
            k <= found.len(),
            first_exact_java(found@, required) is None,
            first_newer_java(found@, required) == first_newer_java(found@.skip(k as int), required),
        decreases found.len() - k,
    {
        assert(found@.skip(k as int)[0] == found@[k as int]);
        assert(found@.skip(k as int).drop_first() =~= found@.skip(k + 1));
        match found[k].1 {
            Some(m) => {
                if m > required {
                    return Some(found[k].0.clone());
                }
            },
            None => {},
        }
        k += 1;
    }
    if found.len() > 0 {
        Some(found[0].0.clone())
    } else {
        None
    }
}

} // verus!
