//! How a launch is shown and what the launcher does after it.
use vstd::prelude::*;

use crate::minecraft::LaunchCommand;
use crate::text::{
    chars_of, copy_chars, is_whitespace, is_ws, join_chars, join_with, lines_of, lines_spec,
    replace_all, replace_seq, string_of, trim, trim_chars, views,
};

verus! {

/// What the launcher does around a launch.
#[derive(Debug, Clone, Copy, PartialEq, Eq)]
pub struct LaunchOptions {
    pub keep_launcher_open: bool,
    pub save_launch_string: bool,
}

/// How one part of a command line is shown: as it is when it holds no
/// white space or double quote, else in double quotes with inner double
/// quotes escaped.
pub open spec fn shown_part(v: Seq<char>) -> Seq<char> {
    if forall|i: int| 0 <= i < v.len() ==> !is_ws(#[trigger] v[i]) && v[i] != '"' {
        v
    } else {
        seq!['"'] + replace_all(v, "\""@, "\\\""@) + seq!['"']
    }
}

/// A command line as shown: executable and arguments, each shown, with
/// single spaces between them.
pub open spec fn command_line(executable: Seq<char>, args: Seq<Seq<char>>) -> Seq<char> {
    join_with((seq![executable] + args).map_values(|a: Seq<char>| shown_part(a)), seq![' '])
}

fn show_part(v: &[char]) -> (out: Vec<char>)
    ensures
        out@ == shown_part(v@),
{
    let mut plain = true;
    let mut i: usize = 0;
    while i < v.len()
        invariant
            i <= v.len(),
            plain == forall|j: int| 0 <= j < i ==> !is_ws(#[trigger] v@[j]) && v@[j] != '"',
        decreases v.len() - i,
    {
        if is_whitespace(v[i]) || v[i] == '"' {
            plain = false;
        }
        i += 1;
    }
    if plain {
        return copy_chars(v);
    }
    let pat = chars_of("\"");
    let rep = chars_of("\\\"");
    proof {
        reveal_strlit("\"");
    }
    let inner = replace_seq(v, pat.as_slice(), rep.as_slice());
    let mut out: Vec<char> = Vec::new();
    out.push('"');
    crate::text::push_all(&mut out, inner.as_slice());
    out.push('"');
    assert(out@ =~= shown_part(v@));
    out
}

/// Shows an executable and its arguments as one command line.
pub fn command_to_string(executable: &str, args: &Vec<String>) -> (s: String)
    ensures
        s@ == command_line(executable@, args.deep_view()),
{
    let ghost all = seq![executable@] + args.deep_view();
    let mut parts: Vec<Vec<char>> = Vec::new();
    let e = chars_of(executable);
    parts.push(show_part(e.as_slice()));
    let mut i: usize = 0;
    assert(views(parts@) =~= all.take(1).map_values(|a: Seq<char>| shown_part(a)));
    while i < args.len()
        invariant
            i <= args.len(),
            all == seq![executable@] + args.deep_view(),
            views(parts@) == all.take(i + 1).map_values(|a: Seq<char>| shown_part(a)),
        decreases args.len() - i,
    {
        let a = chars_of(args[i].as_str());
        let ghost prev = views(parts@);
        let shown = show_part(a.as_slice());
        parts.push(shown);
        assert(views(parts@) =~= prev.push(shown@));
        assert(all[i + 1] == args@[i as int]@);
        assert(all.take(i + 2) =~= all.take(i + 1).push(all[i + 1]));
        assert(views(parts@) =~= all.take(i + 2).map_values(|a: Seq<char>| shown_part(a)));
        i += 1;
    }
    assert(all.take(args.len() + 1) =~= all);
    let sep = chars_of(" ");
    proof {
        reveal_strlit(" ");
    }
    assert(sep@ =~= seq![' ']);
    let out = join_chars(&parts, sep.as_slice());
    string_of(out.as_slice())
}

/// The command line a launch shows: the saved launch string when there is
/// one, else the command built from executable and arguments.
pub open spec fn displayed_command(c: LaunchCommand) -> Seq<char> {
    match c.launch_string {
        Some(s) => s@,
        None => command_line(c.executable@, c.args.deep_view()),
    }
}

/// The command line a launch shows.
pub fn display_command(command: &LaunchCommand) -> (s: String)
    ensures
        s@ == displayed_command(*command),
{
    match &command.launch_string {
        Some(s) => s.clone(),
        None => command_to_string(command.executable.as_str(), &command.args),
    }
}

/// Whether the launcher closes once the game has started.
pub open spec fn closes_after_launch(options: LaunchOptions) -> bool {
    !options.keep_launcher_open
}

impl LaunchOptions {
    /// Whether the launcher closes once the game has started: unless it is
    /// kept open.
    pub fn should_close_launcher(&self) -> (b: bool)
        ensures
            b == closes_after_launch(*self),
    {
        !self.keep_launcher_open
    }

    /// The command line to save after a launch, when saving is switched on.
    pub fn saved_command(&self, command: &LaunchCommand) -> (s: Option<String>)
        ensures
            s.deep_view() == (if self.save_launch_string {
                Some(displayed_command(*command))
            } else {
                None
            }),
    {
        if self.save_launch_string {
            Some(display_command(command))
        } else {
            None
        }
    }
}

/// The first line of a text that is not blank, trimmed.
pub open spec fn first_non_empty_line_spec(ls: Seq<Seq<char>>) -> Option<Seq<char>>
    decreases ls.len(),
{
    if ls.len() == 0 {
        None
    } else if trim(ls[0]).len() > 0 {
        Some(trim(ls[0]))
    } else {
        first_non_empty_line_spec(ls.drop_first())
    }
}

/// The first line of `value` that is not blank, trimmed (how the Java
/// version is picked from `java -version` output).
pub fn first_non_empty_line(value: &str) -> (r: Option<String>)
    ensures
        r.deep_view() == first_non_empty_line_spec(lines_spec(value@)),
{
    let c = chars_of(value);
    let ls = lines_of(c.as_slice());
    let ghost lv = views(ls@);
    let mut i: usize = 0;
    assert(lv.skip(0) =~= lv);
    while i < ls.len()
        invariant
            i <= ls.len(),
            lv == views(ls@),
            lv == lines_spec(value@),
            first_non_empty_line_spec(lv) == first_non_empty_line_spec(lv.skip(i as int)),
        decreases ls.len() - i,
    {
        assert(lv.skip(i as int)[0] == ls@[i as int]@);
        assert(lv.skip(i as int).drop_first() =~= lv.skip(i + 1));
        let t = trim_chars(ls[i].as_slice());
        if t.len() > 0 {
            let r = string_of(t.as_slice());
            assert(first_non_empty_line_spec(lv.skip(i as int)) == Some(r@));
            return Some(r);
        }
        i += 1;
    }
    None
}

} // verus!
