//! Launcher settings in the `vortex_launcher.conf` key/value format, and the
//! quoting rules used for argument lists stored in it.
use vstd::prelude::*;

use crate::text::{
    words, words_acc, ascii_lower, ascii_lowercase, chars_eq, chars_of, copy_chars, decimal, find_char_index,
    format_decimal, is_whitespace, is_ws, lines_of, lines_spec, parse_decimal, parse_unsigned, push_all,
    slice_chars, split_once_spec, string_of, to_ascii_lowercase, trim, trim_chars, views,
};

verus! {

/// The file the launcher reads its settings from and writes them to.
pub const DEFAULT_CONFIG_FILE: &'static str = "vortex_launcher.conf";

/// Declares `std::io::Error` so that reading settings can return
/// `std::io::Result` as the rest of the launcher expects; nothing inside an
/// error is read.
#[verifier::external_type_specification]
#[verifier::external_body]
pub struct ExIoError(std::io::Error);

/// Settings that depend on the platform the launcher runs on.
#[derive(Debug, Clone, PartialEq, Eq)]
pub struct PlatformDefaults {
    pub working_directory: String,
    pub default_java_executable_path: String,
    pub default_ram_mb: u32,
    pub default_modern_jvm_arguments: String,
    pub default_download_missing_libraries: bool,
    pub default_download_threads: usize,
    pub default_async_download: bool,
}

/// The launcher's settings. Paths are kept as strings.
#[derive(Debug, Clone, PartialEq, Eq)]
pub struct LauncherConfig {
    pub username: Option<String>,
    pub game_directory: Option<String>,
    pub java_path: Option<String>,
    pub selected_version: Option<String>,
    pub memory_mb: Option<u32>,
    pub extra_jvm_args: Vec<String>,
    pub extra_game_args: Vec<String>,
    pub download_missing_libraries: bool,
    pub redownload_all_files: bool,
    pub show_all_versions: bool,
    pub download_threads: usize,
    pub async_download: bool,
    pub use_custom_java: bool,
    pub use_custom_jvm_parameters: bool,
    pub save_launch_string: bool,
    pub keep_launcher_open: bool,
}

/// The settings a fresh installation starts with on a platform.
pub open spec fn is_default_config(c: LauncherConfig, d: PlatformDefaults) -> bool {
    &&& c.username is None
    &&& c.game_directory.deep_view() == Some(d.working_directory@)
    &&& c.java_path.deep_view() == Some(d.default_java_executable_path@)
    &&& c.selected_version is None
    &&& c.memory_mb == Some(d.default_ram_mb)
    &&& c.extra_jvm_args.deep_view() == parse_args(d.default_modern_jvm_arguments@)
    &&& c.extra_game_args@.len() == 0
    &&& c.download_missing_libraries == d.default_download_missing_libraries
    &&& !c.redownload_all_files
    &&& !c.show_all_versions
    &&& c.download_threads == d.default_download_threads
    &&& c.async_download == d.default_async_download
    &&& !c.use_custom_java
    &&& !c.use_custom_jvm_parameters
    &&& !c.save_launch_string
    &&& !c.keep_launcher_open
}

impl LauncherConfig {
    /// The default settings for a platform.
    pub fn with_platform_defaults(defaults: &PlatformDefaults) -> (c: Self)
        ensures
            is_default_config(c, *defaults),
    {
        let extra = parse_arg_string(defaults.default_modern_jvm_arguments.as_str());
        let c = LauncherConfig {
            username: None,
            game_directory: Some(defaults.working_directory.clone()),
            java_path: Some(defaults.default_java_executable_path.clone()),
            selected_version: None,
            memory_mb: Some(defaults.default_ram_mb),
            extra_jvm_args: extra,
            extra_game_args: Vec::new(),
            download_missing_libraries: defaults.default_download_missing_libraries,
            redownload_all_files: false,
            show_all_versions: false,
            download_threads: defaults.default_download_threads,
            async_download: defaults.default_async_download,
            use_custom_java: false,
            use_custom_jvm_parameters: false,
            save_launch_string: false,
            keep_launcher_open: false,
        };
        assert(c.extra_game_args@ =~= Seq::<String>::empty());
        c
    }
}

/// Scanner state while splitting an argument string: the finished
/// arguments, the argument being built, the open quote character, whether
/// that quote was opened by an escaped quote, and whether an argument has
/// started.
pub struct ArgScan {
    pub done: Seq<Seq<char>>,
    pub cur: Seq<char>,
    pub quote: Option<char>,
    pub grouped: bool,
    pub started: bool,
}

/// The state in which scanning starts, after the arguments `done`.
pub open spec fn scan_start(done: Seq<Seq<char>>) -> ArgScan {
    ArgScan { done, cur: Seq::empty(), quote: None, grouped: false, started: false }
}

/// A character that a backslash escapes.
pub open spec fn escapable(c: char) -> bool {
    c == '\\' || c == '"' || c == '\'' || is_ws(c)
}

/// Whether the rest `s` of an argument string holds an escaped `q` that
/// closes a group opened by an escaped `q`: reading backslash escapes in
/// pairs as the scanner does, a backslash directly followed by `q`.
pub open spec fn closing_escape_follows(s: Seq<char>, q: char) -> bool
    decreases s.len(),
{
    if s.len() == 0 {
        false
    } else if s[0] == '\\' && s.len() > 1 && s[1] == q {
        true
    } else if s[0] == '\\' && s.len() > 1 && escapable(s[1]) {
        closing_escape_follows(s.skip(2), q)
    } else {
        closing_escape_follows(s.skip(1), q)
    }
}

/// Splits the rest `s` of an argument string, scanning from state `st`:
/// white space outside quotes separates arguments, single or double quotes
/// group characters, and a backslash keeps a following backslash, quote or
/// white space character literally (any other backslash is kept as is).
/// An escaped quote outside quotes that a matching escaped quote follows
/// also groups, up to that escaped quote, so that `\"a b\"` stays one
/// argument; an unmatched escaped quote is only a literal quote.
pub open spec fn scan_args(s: Seq<char>, st: ArgScan) -> Seq<Seq<char>>
    decreases s.len(),
{
    if s.len() == 0 {
        if st.started {
            st.done.push(st.cur)
        } else {
            st.done
        }
    } else {
        let c = s[0];
        if c == '\\' {
            if s.len() > 1 && escapable(s[1]) {
                let q = s[1];
                if (q == '\'' || q == '"') && st.quote is None && closing_escape_follows(s.skip(2), q) {
                    scan_args(
                        s.skip(2),
                        ArgScan { cur: st.cur.push(q), quote: Some(q), grouped: true, started: true, ..st },
                    )
                } else if (q == '\'' || q == '"') && st.quote == Some(q) && st.grouped {
                    scan_args(
                        s.skip(2),
                        ArgScan { cur: st.cur.push(q), quote: None, grouped: false, started: true, ..st },
                    )
                } else {
                    scan_args(s.skip(2), ArgScan { cur: st.cur.push(q), started: true, ..st })
                }
            } else {
                scan_args(s.skip(1), ArgScan { cur: st.cur.push(c), started: true, ..st })
            }
        } else if (c == '\'' || c == '"') && st.quote == Some(c) {
            scan_args(s.skip(1), ArgScan { quote: None, grouped: false, started: true, ..st })
        } else if (c == '\'' || c == '"') && st.quote is None {
            scan_args(s.skip(1), ArgScan { quote: Some(c), grouped: false, started: true, ..st })
        } else if is_ws(c) && st.quote is None {
            if st.started {
                scan_args(
                    s.skip(1),
                    ArgScan {
                        done: st.done.push(st.cur),
                        cur: Seq::empty(),
                        quote: None,
                        grouped: false,
                        started: false,
                    },
                )
            } else {
                scan_args(s.skip(1), st)
            }
        } else {
            scan_args(s.skip(1), ArgScan { cur: st.cur.push(c), started: true, ..st })
        }
    }
}

/// The arguments of an argument string.
pub open spec fn parse_args(s: Seq<char>) -> Seq<Seq<char>> {
    scan_args(s, scan_start(Seq::empty()))
}

/// A character that keeps an argument from being written bare.
pub open spec fn needs_quotes(c: char) -> bool {
    is_ws(c) || c == '"' || c == '\\'
}

/// The characters of `a` with backslashes and double quotes escaped.
pub open spec fn escape_quoted(a: Seq<char>) -> Seq<char>
    decreases a.len(),
{
    if a.len() == 0 {
        Seq::empty()
    } else {
        let c = a[0];
        let head = if c == '\\' || c == '"' {
            seq!['\\', c]
        } else {
            seq![c]
        };
        head + escape_quoted(a.drop_first())
    }
}

/// How one argument is written: bare when it is non-empty and holds no
/// white space, double quote or backslash; otherwise in double quotes.
pub open spec fn quote_arg_spec(a: Seq<char>) -> Seq<char> {
    if a.len() > 0 && forall|i: int| 0 <= i < a.len() ==> !needs_quotes(#[trigger] a[i]) {
        a
    } else {
        seq!['"'] + escape_quoted(a) + seq!['"']
    }
}

/// The written arguments, separated by single spaces.
pub open spec fn join_args_spec(args: Seq<Seq<char>>) -> Seq<char>
    decreases args.len(),
{
    if args.len() == 0 {
        Seq::empty()
    } else if args.len() == 1 {
        quote_arg_spec(args[0])
    } else {
        quote_arg_spec(args[0]) + seq![' '] + join_args_spec(args.drop_first())
    }
}

fn closing_escape_in(s: &[char], from: usize, q: char) -> (b: bool)
    requires
        from <= s.len(),
    ensures
        b == closing_escape_follows(s@.skip(from as int), q),
{
    let mut i = from;
    while i < s.len()
        invariant
            from <= i <= s.len(),
            closing_escape_follows(s@.skip(from as int), q) == closing_escape_follows(s@.skip(i as int), q),
        decreases s.len() - i,
    {
        let ghost r = s@.skip(i as int);
        assert(r[0] == s@[i as int]);
        if s[i] == '\\' && i + 1 < s.len() {
            assert(r[1] == s@[i + 1]);
            if s[i + 1] == q {
                return true;
            }
            if s[i + 1] == '\\' || s[i + 1] == '"' || s[i + 1] == '\'' || is_whitespace(s[i + 1]) {
                assert(r.skip(2) =~= s@.skip(i + 2));
                i = i + 2;
                continue;
            }
        }
        assert(r.skip(1) =~= s@.skip(i + 1));
        i = i + 1;
    }
    false
}

/// Splits an argument string into arguments (see `scan_args`).
pub fn parse_arg_string(value: &str) -> (args: Vec<String>)
    ensures
        args.deep_view() == parse_args(value@),
{
    let chars = chars_of(value);
    let n = chars.len();
    let mut args: Vec<String> = Vec::new();
    let mut current: Vec<char> = Vec::new();
    let mut quote: Option<char> = None;
    let mut grouped = false;
    let mut arg_started = false;
    let mut i: usize = 0;
    assert(chars@.skip(0) =~= chars@);
    assert(args.deep_view() =~= Seq::<Seq<char>>::empty());
    assert(current@ =~= Seq::<char>::empty());
    while i < n
        invariant
            n == chars@.len(),
            chars@ == value@,
            i <= n,
            grouped ==> quote is Some,
            scan_args(
                chars@.skip(i as int),
                ArgScan { done: args.deep_view(), cur: current@, quote, grouped, started: arg_started },
            ) == parse_args(value@),
        decreases n - i,
    {
        let ghost rest = chars@.skip(i as int);
        let ghost st = ArgScan { done: args.deep_view(), cur: current@, quote, grouped, started: arg_started };
        assert(rest.len() > 0 && rest[0] == chars@[i as int]);
        let ch = chars[i];
        if ch == '\\' {
            arg_started = true;
            if i + 1 < n && (chars[i + 1] == '\\' || chars[i + 1] == '"' || chars[i + 1] == '\''
                || is_whitespace(chars[i + 1])) {
                assert(rest[1] == chars@[i + 1]);
                let q = chars[i + 1];
                if (q == '\'' || q == '"') && quote.is_none() && closing_escape_in(chars.as_slice(), i + 2, q) {
                    quote = Some(q);
                    grouped = true;
                } else if (q == '\'' || q == '"') && quote == Some(q) && grouped {
                    quote = None;
                    grouped = false;
                }
                current.push(q);
                assert(rest.skip(2) =~= chars@.skip(i + 2));
                i = i + 2;
            } else {
                assert(rest.len() > 1 ==> rest[1] == chars@[i + 1]);
                current.push(ch);
                assert(rest.skip(1) =~= chars@.skip(i + 1));
                i = i + 1;
            }
        } else if (ch == '\'' || ch == '"') && quote == Some(ch) {
            arg_started = true;
            quote = None;
            grouped = false;
            assert(rest.skip(1) =~= chars@.skip(i + 1));
            i = i + 1;
        } else if (ch == '\'' || ch == '"') && quote.is_none() {
            arg_started = true;
            quote = Some(ch);
            grouped = false;
            assert(rest.skip(1) =~= chars@.skip(i + 1));
            i = i + 1;
        } else if is_whitespace(ch) && quote.is_none() {
            if arg_started {
                let ghost prev = args.deep_view();
                let finished = string_of(current.as_slice());
                args.push(finished);
                current = Vec::new();
                arg_started = false;
                assert(args.deep_view() =~= prev.push(st.cur));
                assert(current@ =~= Seq::<char>::empty());
            }
            assert(rest.skip(1) =~= chars@.skip(i + 1));
            i = i + 1;
        } else {
            arg_started = true;
            current.push(ch);
            assert(rest.skip(1) =~= chars@.skip(i + 1));
            i = i + 1;
        }
    }
    assert(chars@.skip(i as int) =~= Seq::<char>::empty());
    if arg_started {
        let ghost prev = args.deep_view();
        let finished = string_of(current.as_slice());
        args.push(finished);
        assert(args.deep_view() =~= prev.push(current@));
    }
    args
}

/// The escaped form of one character inside double quotes.
pub open spec fn escape_char(c: char) -> Seq<char> {
    if c == '\\' || c == '"' {
        seq!['\\', c]
    } else {
        seq![c]
    }
}

proof fn lemma_escape_push(a: Seq<char>, c: char)
    ensures
        escape_quoted(a.push(c)) == escape_quoted(a) + escape_char(c),
    decreases a.len(),
{
    if a.len() == 0 {
        assert(a.push(c).drop_first() =~= Seq::<char>::empty());
        assert(escape_quoted(a.push(c)) =~= escape_char(c) + escape_quoted(Seq::<char>::empty()));
        assert(escape_quoted(a) + escape_char(c) =~= escape_char(c));
    } else {
        assert(a.push(c).drop_first() =~= a.drop_first().push(c));
        lemma_escape_push(a.drop_first(), c);
        assert(escape_quoted(a.push(c)) =~= escape_char(a[0]) + escape_quoted(a.drop_first().push(c)));
        assert(escape_quoted(a) =~= escape_char(a[0]) + escape_quoted(a.drop_first()));
        assert(escape_quoted(a.push(c)) =~= escape_quoted(a) + escape_char(c));
    }
}

proof fn lemma_join_push(args: Seq<Seq<char>>, a: Seq<char>)
    requires
        args.len() >= 1,
    ensures
        join_args_spec(args.push(a)) == join_args_spec(args) + seq![' '] + quote_arg_spec(a),
    decreases args.len(),
{
    if args.len() == 1 {
        assert(args.push(a).drop_first() =~= seq![a]);
        assert(join_args_spec(seq![a]) == quote_arg_spec(a));
    } else {
        assert(args.push(a).drop_first() =~= args.drop_first().push(a));
        lemma_join_push(args.drop_first(), a);
        assert(join_args_spec(args.push(a)) =~= join_args_spec(args) + seq![' '] + quote_arg_spec(a));
    }
}

/// Writes one argument so that `parse_arg_string` reads it back.
fn quote_arg(value: &[char]) -> (out: Vec<char>)
    ensures
        out@ == quote_arg_spec(value@),
{
    let n = value.len();
    let mut bare = n > 0;
    let mut i: usize = 0;
    while i < n
        invariant
            n == value@.len(),
            i <= n,
            bare == (n > 0 && forall|j: int| 0 <= j < i ==> !needs_quotes(#[trigger] value@[j])),
        decreases n - i,
    {
        let c = value[i];
        if is_whitespace(c) || c == '"' || c == '\\' {
            bare = false;
        }
        i += 1;
    }
    if bare {
        return copy_chars(value);
    }
    let mut out: Vec<char> = Vec::new();
    out.push('"');
    let mut k: usize = 0;
    assert(value@.take(0) =~= Seq::<char>::empty());
    while k < n
        invariant
            n == value@.len(),
            k <= n,
            out@ == seq!['"'] + escape_quoted(value@.take(k as int)),
        decreases n - k,
    {
        let c = value[k];
        proof {
            lemma_escape_push(value@.take(k as int), c);
            assert(value@.take(k as int).push(c) =~= value@.take(k + 1));
        }
        if c == '\\' || c == '"' {
            out.push('\\');
        }
        out.push(c);
        assert(out@ =~= seq!['"'] + escape_quoted(value@.take(k + 1)));
        k += 1;
    }
    out.push('"');
    assert(value@.take(n as int) =~= value@);
    assert(out@ =~= seq!['"'] + escape_quoted(value@) + seq!['"']);
    out
}

/// Writes arguments so that `parse_arg_string` reads them back (see
/// `lemma_join_then_parse`): each argument bare or in double quotes,
/// separated by single spaces.
pub fn join_args(args: &[String]) -> (joined: String)
    ensures
        joined@ == join_args_spec(args@.map_values(|a: String| a@)),
{
    let ghost views = args@.map_values(|a: String| a@);
    let mut out: Vec<char> = Vec::new();
    let mut i: usize = 0;
    while i < args.len()
        invariant
            i <= args.len(),
            views == args@.map_values(|a: String| a@),
            out@ == join_args_spec(views.take(i as int)),
        decreases args.len() - i,
    {
        let arg = chars_of(args[i].as_str());
        let quoted = quote_arg(arg.as_slice());
        proof {
            assert(views[i as int] == args@[i as int]@);
            assert(views.take(i as int).push(views[i as int]) =~= views.take(i + 1));
            if i > 0 {
                lemma_join_push(views.take(i as int), views[i as int]);
            } else {
                assert(views.take(1) =~= seq![views[0]]);
            }
        }
        if i > 0 {
            out.push(' ');
        }
        let ghost base = out@;
        push_all(&mut out, quoted.as_slice());
        proof {
            if i == 0 {
                assert(base =~= Seq::<char>::empty());
                assert(out@ =~= join_args_spec(views.take(1)));
            } else {
                assert(out@ =~= join_args_spec(views.take(i as int)) + seq![' '] + quote_arg_spec(
                    views[i as int],
                ));
            }
        }
        i += 1;
    }
    assert(views.take(args.len() as int) =~= views);
    string_of(out.as_slice())
}

/// Whether `join_args` writes an argument bare: it is not empty and holds
/// no white space, double quote or backslash.
pub open spec fn written_bare(a: Seq<char>) -> bool {
    a.len() > 0 && forall|i: int| 0 <= i < a.len() ==> !needs_quotes(#[trigger] a[i])
}

/// An argument that reads back as written: one written in double quotes,
/// or one written bare that holds no single quote (a bare single quote
/// would open a quote when read back).
pub open spec fn reads_back(a: Seq<char>) -> bool {
    written_bare(a) ==> forall|j: int| 0 <= j < a.len() ==> #[trigger] a[j] != '\''
}

/// Every argument reads back as written (see `reads_back`).
pub open spec fn all_read_back(args: Seq<Seq<char>>) -> bool {
    forall|i: int| 0 <= i < args.len() ==> reads_back(#[trigger] args[i])
}

proof fn lemma_scan_bare(u: Seq<char>, r: Seq<char>, done: Seq<Seq<char>>, cur: Seq<char>, started: bool)
    requires
        forall|j: int| 0 <= j < u.len() ==> !needs_quotes(#[trigger] u[j]) && u[j] != '\'',
    ensures
        scan_args(u + r, ArgScan { done, cur, quote: None, grouped: false, started }) == scan_args(
            r,
            ArgScan { done, cur: cur + u, quote: None, grouped: false, started: started || u.len() > 0 },
        ),
    decreases u.len(),
{
    if u.len() == 0 {
        assert(u + r =~= r);
        assert(cur + u =~= cur);
    } else {
        let s = u + r;
        assert(s[0] == u[0]);
        assert(!needs_quotes(u[0]) && u[0] != '\'');
        assert(s.skip(1) =~= u.drop_first() + r);
        lemma_scan_bare(u.drop_first(), r, done, cur.push(u[0]), true);
        assert(cur.push(u[0]) + u.drop_first() =~= cur + u);
    }
}

proof fn lemma_scan_escaped(u: Seq<char>, r: Seq<char>, done: Seq<Seq<char>>, cur: Seq<char>)
    ensures
        scan_args(escape_quoted(u) + r, ArgScan { done, cur, quote: Some('"'), grouped: false, started: true })
            == scan_args(r, ArgScan { done, cur: cur + u, quote: Some('"'), grouped: false, started: true }),
    decreases u.len(),
{
    if u.len() == 0 {
        assert(escape_quoted(u) + r =~= r);
        assert(cur + u =~= cur);
    } else {
        let c = u[0];
        let tail = escape_quoted(u.drop_first()) + r;
        let s = escape_quoted(u) + r;
        assert(s =~= escape_char(c) + tail);
        lemma_scan_escaped(u.drop_first(), r, done, cur.push(c));
        assert(cur.push(c) + u.drop_first() =~= cur + u);
        if c == '\\' || c == '"' {
            assert(s[0] == '\\' && s[1] == c);
            assert(s.skip(2) =~= tail);
        } else {
            assert(s[0] == c);
            assert(s.skip(1) =~= tail);
        }
    }
}

proof fn lemma_scan_quoted_arg(a: Seq<char>, r: Seq<char>, done: Seq<Seq<char>>)
    requires
        reads_back(a),
    ensures
        scan_args(quote_arg_spec(a) + r, scan_start(done)) == scan_args(
            r,
            ArgScan { done, cur: a, quote: None, grouped: false, started: true },
        ),
{
    if written_bare(a) {
        lemma_scan_bare(a, r, done, Seq::empty(), false);
        assert(Seq::<char>::empty() + a =~= a);
    } else {
        let inner = escape_quoted(a) + (seq!['"'] + r);
        let s = quote_arg_spec(a) + r;
        assert(s =~= seq!['"'] + inner);
        assert(s[0] == '"');
        assert(s.skip(1) =~= inner);
        lemma_scan_escaped(a, seq!['"'] + r, done, Seq::empty());
        assert(Seq::<char>::empty() + a =~= a);
        let t = seq!['"'] + r;
        assert(t[0] == '"');
        assert(t.skip(1) =~= r);
    }
}

proof fn lemma_scan_joined(args: Seq<Seq<char>>, done: Seq<Seq<char>>)
    requires
        all_read_back(args),
    ensures
        scan_args(join_args_spec(args), scan_start(done)) == done + args,
    decreases args.len(),
{
    if args.len() == 0 {
        assert(done + args =~= done);
    } else {
        let a = args[0];
        assert(reads_back(a));
        if args.len() == 1 {
            lemma_scan_quoted_arg(a, Seq::empty(), done);
            assert(quote_arg_spec(a) + Seq::<char>::empty() =~= quote_arg_spec(a));
            assert(done + args =~= done.push(a));
        } else {
            let rest = args.drop_first();
            let r = seq![' '] + join_args_spec(rest);
            assert(join_args_spec(args) =~= quote_arg_spec(a) + r);
            lemma_scan_quoted_arg(a, r, done);
            assert(r[0] == ' ');
            assert(is_ws(' '));
            assert(r.skip(1) =~= join_args_spec(rest));
            assert(all_read_back(rest)) by {
                assert forall|i: int| 0 <= i < rest.len() implies reads_back(#[trigger] rest[i]) by {
                    assert(rest[i] == args[i + 1]);
                }
            }
            lemma_scan_joined(rest, done.push(a));
            assert(done.push(a) + rest =~= done + args);
        }
    }
}

/// Law: arguments written by `join_args` are read back unchanged by
/// `parse_arg_string`, unless one of them is written bare and holds a
/// single quote (as `it's` is; `it's me` is written in double quotes and
/// reads back).
pub proof fn lemma_join_then_parse(args: Seq<Seq<char>>)
    requires
        all_read_back(args),
    ensures
        parse_args(join_args_spec(args)) == args,
{
    lemma_scan_joined(args, Seq::empty());
    assert(Seq::<Seq<char>>::empty() + args =~= args);
}

/// How many single quotes `s` holds.
pub open spec fn single_quotes(s: Seq<char>) -> nat
    decreases s.len(),
{
    if s.len() == 0 {
        0
    } else {
        (if s[0] == '\'' {
            1nat
        } else {
            0nat
        }) + single_quotes(s.drop_first())
    }
}

/// How many single quotes the arguments hold together.
pub open spec fn all_single_quotes(args: Seq<Seq<char>>) -> nat
    decreases args.len(),
{
    if args.len() == 0 {
        0
    } else {
        single_quotes(args[0]) + all_single_quotes(args.drop_first())
    }
}

proof fn lemma_quotes_concat(a: Seq<char>, b: Seq<char>)
    ensures
        single_quotes(a + b) == single_quotes(a) + single_quotes(b),
    decreases a.len(),
{
    if a.len() == 0 {
        assert(a + b =~= b);
    } else {
        assert((a + b).drop_first() =~= a.drop_first() + b);
        lemma_quotes_concat(a.drop_first(), b);
    }
}

proof fn lemma_quotes_single(c: char)
    ensures
        single_quotes(seq![c]) == (if c == '\'' {
            1nat
        } else {
            0nat
        }),
{
    assert(seq![c].drop_first() =~= Seq::<char>::empty());
    assert(single_quotes(Seq::<char>::empty()) == 0);
}

proof fn lemma_quotes_push(a: Seq<char>, c: char)
    ensures
        single_quotes(a.push(c)) == single_quotes(a) + (if c == '\'' {
            1nat
        } else {
            0nat
        }),
{
    lemma_quotes_concat(a, seq![c]);
    assert(a + seq![c] =~= a.push(c));
    lemma_quotes_single(c);
}

proof fn lemma_all_quotes_push(args: Seq<Seq<char>>, a: Seq<char>)
    ensures
        all_single_quotes(args.push(a)) == all_single_quotes(args) + single_quotes(a),
    decreases args.len(),
{
    if args.len() == 0 {
        assert(args.push(a).drop_first() =~= Seq::<Seq<char>>::empty());
        assert(args.push(a)[0] == a);
        assert(all_single_quotes(Seq::<Seq<char>>::empty()) == 0);
    } else {
        assert(args.push(a).drop_first() =~= args.drop_first().push(a));
        assert(args.push(a)[0] == args[0]);
        lemma_all_quotes_push(args.drop_first(), a);
    }
}

proof fn lemma_escape_keeps_quotes(a: Seq<char>)
    ensures
        single_quotes(escape_quoted(a)) == single_quotes(a),
    decreases a.len(),
{
    if a.len() > 0 {
        lemma_escape_keeps_quotes(a.drop_first());
        let c = a[0];
        lemma_quotes_concat(escape_char(c), escape_quoted(a.drop_first()));
        assert(escape_quoted(a) == escape_char(c) + escape_quoted(a.drop_first()));
        lemma_quotes_single(c);
        if c == '\\' || c == '"' {
            lemma_quotes_single('\\');
            lemma_quotes_concat(seq!['\\'], seq![c]);
            assert(seq!['\\'] + seq![c] =~= escape_char(c));
        } else {
            assert(escape_char(c) == seq![c]);
        }
    }
}

proof fn lemma_join_keeps_quotes(args: Seq<Seq<char>>)
    ensures
        single_quotes(join_args_spec(args)) == all_single_quotes(args),
    decreases args.len(),
{
    if args.len() > 0 {
        let a = args[0];
        if !(a.len() > 0 && forall|i: int| 0 <= i < a.len() ==> !needs_quotes(#[trigger] a[i])) {
            lemma_escape_keeps_quotes(a);
            lemma_quotes_single('"');
            lemma_quotes_concat(seq!['"'], escape_quoted(a));
            lemma_quotes_concat(seq!['"'] + escape_quoted(a), seq!['"']);
        }
        assert(single_quotes(quote_arg_spec(a)) == single_quotes(a));
        if args.len() == 1 {
            assert(args.drop_first() =~= Seq::<Seq<char>>::empty());
            assert(all_single_quotes(Seq::<Seq<char>>::empty()) == 0);
        } else {
            lemma_join_keeps_quotes(args.drop_first());
            lemma_quotes_single(' ');
            lemma_quotes_concat(quote_arg_spec(a), seq![' ']);
            lemma_quotes_concat(quote_arg_spec(a) + seq![' '], join_args_spec(args.drop_first()));
        }
    }
}

/// Scanning never makes single quotes: the arguments read hold at most as
/// many as the finished arguments, the argument being built and the rest
/// of the text together.
proof fn lemma_scan_keeps_at_most_quotes(s: Seq<char>, st: ArgScan)
    ensures
        all_single_quotes(scan_args(s, st)) <= all_single_quotes(st.done) + single_quotes(st.cur) + single_quotes(s),
    decreases s.len(),
{
    if s.len() == 0 {
        lemma_all_quotes_push(st.done, st.cur);
    } else {
        let c = s[0];
        assert(s.skip(1) =~= s.drop_first());
        assert(single_quotes(s) == (if c == '\'' {
            1nat
        } else {
            0nat
        }) + single_quotes(s.drop_first()));
        if c == '\\' {
            if s.len() > 1 && escapable(s[1]) {
                let q = s[1];
                assert(s.skip(2) =~= s.drop_first().drop_first());
                assert(s.drop_first()[0] == q);
                lemma_quotes_push(st.cur, q);
                let next = if (q == '\'' || q == '"') && st.quote is None && closing_escape_follows(s.skip(2), q) {
                    ArgScan { cur: st.cur.push(q), quote: Some(q), grouped: true, started: true, ..st }
                } else if (q == '\'' || q == '"') && st.quote == Some(q) && st.grouped {
                    ArgScan { cur: st.cur.push(q), quote: None, grouped: false, started: true, ..st }
                } else {
                    ArgScan { cur: st.cur.push(q), started: true, ..st }
                };
                assert(scan_args(s, st) == scan_args(s.skip(2), next));
                lemma_scan_keeps_at_most_quotes(s.skip(2), next);
            } else {
                let next = ArgScan { cur: st.cur.push(c), started: true, ..st };
                lemma_quotes_push(st.cur, c);
                lemma_scan_keeps_at_most_quotes(s.skip(1), next);
            }
        } else if (c == '\'' || c == '"') && st.quote == Some(c) {
            lemma_scan_keeps_at_most_quotes(s.skip(1), ArgScan { quote: None, grouped: false, started: true, ..st });
        } else if (c == '\'' || c == '"') && st.quote is None {
            lemma_scan_keeps_at_most_quotes(s.skip(1), ArgScan { quote: Some(c), grouped: false, started: true, ..st });
        } else if is_ws(c) && st.quote is None {
            if st.started {
                lemma_all_quotes_push(st.done, st.cur);
                lemma_scan_keeps_at_most_quotes(
                    s.skip(1),
                    ArgScan {
                        done: st.done.push(st.cur),
                        cur: Seq::empty(),
                        quote: None,
                        grouped: false,
                        started: false,
                    },
                );
            } else {
                lemma_scan_keeps_at_most_quotes(s.skip(1), st);
            }
        } else {
            lemma_quotes_push(st.cur, c);
            lemma_scan_keeps_at_most_quotes(s.skip(1), ArgScan { cur: st.cur.push(c), started: true, ..st });
        }
    }
}

/// When an argument does not read back, the written arguments read back
/// with fewer single quotes than they hold.
proof fn lemma_scan_joined_loses_quote(args: Seq<Seq<char>>, done: Seq<Seq<char>>)
    requires
        !all_read_back(args),
    ensures
        all_single_quotes(scan_args(join_args_spec(args), scan_start(done))) < all_single_quotes(done)
            + all_single_quotes(args),
    decreases args.len(),
{
    let a = args[0];
    let rest = args.drop_first();
    let r = if args.len() > 1 {
        seq![' '] + join_args_spec(rest)
    } else {
        Seq::<char>::empty()
    };
    assert(join_args_spec(args) =~= quote_arg_spec(a) + r);
    if args.len() > 1 {
        lemma_join_keeps_quotes(rest);
        lemma_quotes_concat(seq![' '], join_args_spec(rest));
        lemma_quotes_single(' ');
    } else {
        assert(rest =~= Seq::<Seq<char>>::empty());
        assert(all_single_quotes(Seq::<Seq<char>>::empty()) == 0);
        assert(single_quotes(Seq::<char>::empty()) == 0);
    }
    assert(single_quotes(r) == all_single_quotes(rest));
    if reads_back(a) {
        assert(args.len() > 1) by {
            if args.len() == 1 {
                assert forall|i: int| 0 <= i < args.len() implies reads_back(#[trigger] args[i]) by {}
            }
        }
        assert(!all_read_back(rest)) by {
            if all_read_back(rest) {
                assert forall|i: int| 0 <= i < args.len() implies reads_back(#[trigger] args[i]) by {
                    if i > 0 {
                        assert(args[i] == rest[i - 1]);
                    }
                }
            }
        }
        lemma_scan_quoted_arg(a, r, done);
        assert(r[0] == ' ');
        assert(is_ws(' '));
        assert(r.skip(1) =~= join_args_spec(rest));
        lemma_scan_joined_loses_quote(rest, done.push(a));
        lemma_all_quotes_push(done, a);
    } else {
        assert(written_bare(a));
        assert(exists|j: int| 0 <= j < a.len() && a[j] == '\'');
        crate::text::lemma_find_char_bounds(a, '\'');
        let p = crate::text::find_char(a, '\'');
        let u = a.take(p);
        let t = a.skip(p) + r;
        assert(a + r =~= u + t);
        assert forall|j: int| 0 <= j < u.len() implies !needs_quotes(#[trigger] u[j]) && u[j] != '\'' by {
            assert(u[j] == a[j]);
        }
        lemma_scan_bare(u, t, done, Seq::empty(), false);
        assert(Seq::<char>::empty() + u =~= u);
        assert(t[0] == '\'');
        let st = ArgScan { done, cur: u, quote: None, grouped: false, started: u.len() > 0 };
        let next = ArgScan { quote: Some('\''), grouped: false, started: true, ..st };
        assert(scan_args(t, st) == scan_args(t.skip(1), next));
        lemma_scan_keeps_at_most_quotes(t.skip(1), next);
        assert(t.skip(1) =~= a.skip(p + 1) + r);
        lemma_quotes_concat(a.skip(p + 1), r);
        assert(single_quotes(u) == 0) by {
            lemma_no_quotes(u);
        }
        lemma_quotes_concat(u, a.skip(p));
        assert(a =~= u + a.skip(p));
        assert(a.skip(p).drop_first() =~= a.skip(p + 1));
        assert(a.skip(p)[0] == '\'');
    }
}

proof fn lemma_no_quotes(u: Seq<char>)
    requires
        forall|j: int| 0 <= j < u.len() ==> #[trigger] u[j] != '\'',
    ensures
        single_quotes(u) == 0,
    decreases u.len(),
{
    if u.len() > 0 {
        assert(u[0] != '\'');
        assert forall|j: int| 0 <= j < u.drop_first().len() implies #[trigger] u.drop_first()[j] != '\'' by {
            assert(u.drop_first()[j] == u[j + 1]);
        }
        lemma_no_quotes(u.drop_first());
    }
}

/// Law: arguments that `join_args` writes and `parse_arg_string` reads back
/// unchanged are exactly those that all read back (see `reads_back`): an
/// argument written bare with a single quote loses that quote.
pub proof fn lemma_join_then_parse_exactly(args: Seq<Seq<char>>)
    ensures
        parse_args(join_args_spec(args)) == args <==> all_read_back(args),
{
    if all_read_back(args) {
        lemma_join_then_parse(args);
    } else {
        lemma_scan_joined_loses_quote(args, Seq::empty());
        assert(all_single_quotes(Seq::<Seq<char>>::empty()) == 0);
    }
}

/// Text without backslashes or quotes, which the scanner reads as plain
/// words.
pub open spec fn unquoted_text(s: Seq<char>) -> bool {
    forall|i: int| 0 <= i < s.len() ==> #[trigger] s[i] != '\\' && s[i] != '"' && s[i] != '\''
}

proof fn lemma_scan_unquoted(s: Seq<char>, done: Seq<Seq<char>>, cur: Seq<char>, started: bool)
    requires
        unquoted_text(s),
        started == (cur.len() > 0),
    ensures
        scan_args(s, ArgScan { done, cur, quote: None, grouped: false, started }) == words_acc(s, cur, done),
    decreases s.len(),
{
    if s.len() > 0 {
        assert(s.skip(1) =~= s.drop_first());
        assert(unquoted_text(s.drop_first())) by {
            assert forall|i: int| 0 <= i < s.drop_first().len() implies #[trigger] s.drop_first()[i] != '\\'
                && s.drop_first()[i] != '"' && s.drop_first()[i] != '\'' by {
                assert(s.drop_first()[i] == s[i + 1]);
            }
        }
        assert(s[0] != '\\' && s[0] != '"' && s[0] != '\'');
        if is_ws(s[0]) {
            if started {
                lemma_scan_unquoted(s.drop_first(), done.push(cur), Seq::empty(), false);
            } else {
                assert(cur =~= Seq::<char>::empty());
                lemma_scan_unquoted(s.drop_first(), done, cur, false);
            }
        } else {
            lemma_scan_unquoted(s.drop_first(), done, cur.push(s[0]), true);
        }
    }
}

/// Law: text without backslashes or quotes is split as
/// `str::split_whitespace` splits it: white space separates arguments and
/// no argument is empty.
pub proof fn lemma_unquoted_text_splits_on_white_space(s: Seq<char>)
    requires
        unquoted_text(s),
    ensures
        parse_args(s) == words(s),
{
    lemma_scan_unquoted(s, Seq::empty(), Seq::empty(), false);
}

/// The key and value of a settings line: the line trimmed, skipped when
/// empty or a `#` comment, split at its first `=`, both halves trimmed.
pub open spec fn line_entry(line: Seq<char>) -> Option<(Seq<char>, Seq<char>)> {
    let l = trim(line);
    if l.len() == 0 || l[0] == '#' {
        None
    } else {
        match split_once_spec(l, '=') {
            Some((k, v)) => Some((trim(k), trim(v))),
            None => None,
        }
    }
}

/// The key/value entries of settings lines, in order.
pub open spec fn config_entries(ls: Seq<Seq<char>>) -> Seq<(Seq<char>, Seq<char>)>
    decreases ls.len(),
{
    if ls.len() == 0 {
        Seq::empty()
    } else {
        let prev = config_entries(ls.drop_last());
        match line_entry(ls.last()) {
            Some(e) => prev.push(e),
            None => prev,
        }
    }
}

/// The value of the last entry with `key`.
pub open spec fn entry_value(e: Seq<(Seq<char>, Seq<char>)>, key: Seq<char>) -> Option<Seq<char>>
    decreases e.len(),
{
    if e.len() == 0 {
        None
    } else if e.last().0 == key {
        Some(e.last().1)
    } else {
        entry_value(e.drop_last(), key)
    }
}

/// The value under the first of `keys` that the entries hold.
pub open spec fn setting_value(e: Seq<(Seq<char>, Seq<char>)>, keys: Seq<Seq<char>>) -> Option<
    Seq<char>,
>
    decreases keys.len(),
{
    if keys.len() == 0 {
        None
    } else {
        match entry_value(e, keys[0]) {
            Some(v) => Some(v),
            None => setting_value(e, keys.drop_first()),
        }
    }
}

/// A setting: the value under the first of `keys` present, unless empty.
pub open spec fn setting(e: Seq<(Seq<char>, Seq<char>)>, keys: Seq<Seq<char>>) -> Option<Seq<char>> {
    match setting_value(e, keys) {
        Some(v) => if v.len() > 0 {
            Some(v)
        } else {
            None
        },
        None => None,
    }
}

/// A value that switches a flag on: `1`, `true`, `yes` or `on`, in any
/// ASCII case.
pub open spec fn truthy(v: Seq<char>) -> bool {
    let l = ascii_lowercase(v);
    l == "1"@ || l == "true"@ || l == "yes"@ || l == "on"@
}

/// Law: which values switch a flag setting on. A present, non-empty value
/// switches it on exactly when, ignoring ASCII case, it is `1`, `true`,
/// `yes` or `on` (so `1` and `TRUE` switch on, `0`, `false` and `no` off);
/// an absent or empty value leaves the default. Case never matters.
pub proof fn lemma_flag_values(e: Seq<(Seq<char>, Seq<char>)>, keys: Seq<Seq<char>>, default: bool)
    ensures
        setting(e, keys) is None ==> setting_flag(e, keys, default) == default,
        forall|v: Seq<char>|
            setting(e, keys) == Some(v) ==> (setting_flag(e, keys, default) <==> (ascii_lowercase(v) == "1"@
                || ascii_lowercase(v) == "true"@ || ascii_lowercase(v) == "yes"@ || ascii_lowercase(v)
                == "on"@)),
        forall|v: Seq<char>| #[trigger] truthy(ascii_lowercase(v)) == truthy(v),
        truthy("1"@),
        !truthy("0"@),
{
    assert forall|v: Seq<char>| #[trigger] truthy(ascii_lowercase(v)) == truthy(v) by {
        assert(ascii_lowercase(ascii_lowercase(v)) =~= ascii_lowercase(v)) by {
            assert forall|i: int| 0 <= i < v.len() implies ascii_lowercase(ascii_lowercase(v))[i]
                == ascii_lowercase(v)[i] by {
                let c = v[i];
                if 'A' <= c <= 'Z' {
                    assert(!('A' <= ascii_lower(c) <= 'Z'));
                }
            }
        }
    }
    reveal_strlit("1");
    reveal_strlit("0");
    assert(ascii_lowercase("1"@) =~= "1"@);
    assert(ascii_lowercase("0"@) =~= "0"@);
    assert(ascii_lowercase("0"@).len() == 1);
    reveal_strlit("true");
    reveal_strlit("yes");
    reveal_strlit("on");
    assert("0"@[0] == '0' && "1"@[0] == '1');
    assert("0"@ != "1"@);
    assert("true"@.len() == 4 && "yes"@.len() == 3 && "on"@.len() == 2);
    assert("0"@ != "true"@ && "0"@ != "yes"@ && "0"@ != "on"@);
}

/// Law: a settings text whose `KeepLauncherOpen` or `AsyncDownload` value
/// is `1`, `true`, `yes` or `on` (in any ASCII case) reads with that
/// switch on.
pub proof fn lemma_switches_read_on(c: LauncherConfig, text: Seq<char>, d: PlatformDefaults, v: Seq<char>)
    requires
        parsed_config(c, text, d),
        ascii_lowercase(v) == "1"@ || ascii_lowercase(v) == "true"@ || ascii_lowercase(v) == "yes"@
            || ascii_lowercase(v) == "on"@,
    ensures
        setting(text_entries(text), seq!["KeepLauncherOpen"@, "keep_launcher_open"@]) == Some(v)
            ==> c.keep_launcher_open,
        setting(text_entries(text), seq!["AsyncDownload"@, "async_download"@]) == Some(v) ==> c.async_download,
{
    lemma_flag_values(text_entries(text), seq!["KeepLauncherOpen"@, "keep_launcher_open"@], false);
    lemma_flag_values(text_entries(text), seq!["AsyncDownload"@, "async_download"@], d.default_async_download);
}

/// A flag setting, or `default` when absent.
pub open spec fn setting_flag(e: Seq<(Seq<char>, Seq<char>)>, keys: Seq<Seq<char>>, default: bool) -> bool {
    match setting(e, keys) {
        Some(v) => truthy(v),
        None => default,
    }
}

/// The entries of a settings text.
pub open spec fn text_entries(text: Seq<char>) -> Seq<(Seq<char>, Seq<char>)> {
    config_entries(lines_spec(text))
}

/// `c` holds what the settings text `text` sets, and the platform defaults
/// `d` for what it leaves out.
pub open spec fn parsed_config(c: LauncherConfig, text: Seq<char>, d: PlatformDefaults) -> bool {
    let e = text_entries(text);
    &&& c.username.deep_view() == setting(e, seq!["Name"@, "username"@])
    &&& c.game_directory.deep_view() == setting(e, seq!["game_directory"@])
    &&& c.java_path.deep_view() == setting(e, seq!["JavaPath"@, "java_path"@])
    &&& c.selected_version.deep_view() == setting(e, seq!["ChosenVer"@, "selected_version"@])
    &&& c.memory_mb == match setting(e, seq!["Ram"@, "memory_mb"@]) {
        Some(v) => match parse_unsigned(v) {
            Some(n) => if n <= u32::MAX {
                Some(n as u32)
            } else {
                None
            },
            None => None,
        },
        None => Some(d.default_ram_mb),
    }
    &&& c.extra_jvm_args.deep_view() == match setting(e, seq!["CustomParams"@, "extra_jvm_args"@]) {
        Some(v) => parse_args(v),
        None => parse_args(d.default_modern_jvm_arguments@),
    }
    &&& c.extra_game_args.deep_view() == match setting(e, seq!["extra_game_args"@]) {
        Some(v) => parse_args(v),
        None => Seq::empty(),
    }
    &&& c.download_missing_libraries == setting_flag(
        e,
        seq!["DownloadMissingLibs"@, "download_missing_libraries"@],
        d.default_download_missing_libraries,
    )
    &&& c.redownload_all_files == setting_flag(
        e,
        seq!["DownloadAllFiles"@, "redownload_all_files"@],
        false,
    )
    &&& c.show_all_versions == setting_flag(e, seq!["VersionsType"@, "show_all_versions"@], false)
    &&& c.download_threads == match setting(e, seq!["DownloadThreads"@, "download_threads"@]) {
        Some(v) => match parse_unsigned(v) {
            Some(n) => if n <= usize::MAX {
                n as usize
            } else {
                d.default_download_threads
            },
            None => d.default_download_threads,
        },
        None => d.default_download_threads,
    }
    &&& c.async_download == setting_flag(
        e,
        seq!["AsyncDownload"@, "async_download"@],
        d.default_async_download,
    )
    &&& c.use_custom_java == setting_flag(e, seq!["UseCustomJava"@, "use_custom_java"@], false)
    &&& c.use_custom_jvm_parameters == setting_flag(
        e,
        seq!["UseCustomParams"@, "use_custom_jvm_parameters"@],
        false,
    )
    &&& c.save_launch_string == setting_flag(
        e,
        seq!["SaveLaunchString"@, "save_launch_string"@],
        false,
    )
    &&& c.keep_launcher_open == setting_flag(
        e,
        seq!["KeepLauncherOpen"@, "keep_launcher_open"@],
        false,
    )
}

/// The entries as character sequences.
pub open spec fn entries_view(e: Seq<(Vec<char>, Vec<char>)>) -> Seq<(Seq<char>, Seq<char>)> {
    e.map_values(|p: (Vec<char>, Vec<char>)| (p.0@, p.1@))
}

/// The entry of one settings line.
fn parse_line_entry(line: &[char]) -> (r: Option<(Vec<char>, Vec<char>)>)
    ensures
        match r {
            Some(p) => line_entry(line@) == Some((p.0@, p.1@)),
            None => line_entry(line@) is None,
        },
{
    let l = trim_chars(line);
    if l.len() == 0 || l[0] == '#' {
        return None;
    }
    match find_char_index(l.as_slice(), '=') {
        Some(i) => {
            let k = slice_chars(l.as_slice(), 0, i);
            let v = slice_chars(l.as_slice(), i + 1, l.len());
            assert(k@ =~= l@.take(i as int));
            assert(v@ =~= l@.skip(i + 1));
            Some((trim_chars(k.as_slice()), trim_chars(v.as_slice())))
        },
        None => None,
    }
}

/// The key/value entries of a settings text.
fn parse_entries(contents: &str) -> (e: Vec<(Vec<char>, Vec<char>)>)
    ensures
        entries_view(e@) == text_entries(contents@),
{
    let chars = chars_of(contents);
    let ls = lines_of(chars.as_slice());
    let ghost lv = views(ls@);
    let mut e: Vec<(Vec<char>, Vec<char>)> = Vec::new();
    let mut i: usize = 0;
    assert(lv.take(0) =~= Seq::<Seq<char>>::empty());
    assert(entries_view(e@) =~= Seq::<(Seq<char>, Seq<char>)>::empty());
    while i < ls.len()
        invariant
            i <= ls.len(),
            lv == views(ls@),
            lv == lines_spec(contents@),
            entries_view(e@) == config_entries(lv.take(i as int)),
        decreases ls.len() - i,
    {
        assert(lv.take(i + 1).drop_last() =~= lv.take(i as int));
        assert(lv.take(i + 1).last() == ls@[i as int]@);
        match parse_line_entry(ls[i].as_slice()) {
            Some(p) => {
                let ghost prev = entries_view(e@);
                let ghost pv = (p.0@, p.1@);
                e.push(p);
                assert(entries_view(e@) =~= prev.push(pv));
            },
            None => {},
        }
        i += 1;
    }
    assert(lv.take(ls.len() as int) =~= lv);
    e
}

/// The value of the last entry with `key`.
fn lookup_entry(e: &Vec<(Vec<char>, Vec<char>)>, key: &[char]) -> (r: Option<Vec<char>>)
    ensures
        r.deep_view() == entry_value(entries_view(e@), key@),
{
    let mut i = e.len();
    assert(e@.take(i as int) =~= e@);
    while i > 0
        invariant
            i <= e.len(),
            entry_value(entries_view(e@), key@) == entry_value(entries_view(e@.take(i as int)), key@),
        decreases i,
    {
        let ghost t = entries_view(e@.take(i as int));
        assert(entries_view(e@.take(i - 1)) =~= t.drop_last());
        assert(t.last() == (e@[i - 1].0@, e@[i - 1].1@));
        if chars_eq(e[i - 1].0.as_slice(), key) {
            let v = copy_chars(e[i - 1].1.as_slice());
            assert(v.deep_view() =~= v@);
            return Some(v);
        }
        i -= 1;
    }
    assert(entries_view(e@.take(0)) =~= Seq::<(Seq<char>, Seq<char>)>::empty());
    None
}

/// The setting under the first of `keys` present, unless empty.
fn take_setting(e: &Vec<(Vec<char>, Vec<char>)>, keys: &[&str]) -> (r: Option<Vec<char>>)
    ensures
        r.deep_view() == setting(entries_view(e@), keys@.map_values(|k: &str| k@)),
{
    let ghost kv = keys@.map_values(|k: &str| k@);
    let ghost ev = entries_view(e@);
    let mut i: usize = 0;
    assert(kv.skip(0) =~= kv);
    while i < keys.len()
        invariant
            i <= keys.len(),
            kv == keys@.map_values(|k: &str| k@),
            ev == entries_view(e@),
            setting_value(ev, kv) == setting_value(ev, kv.skip(i as int)),
        decreases keys.len() - i,
    {
        let key = chars_of(keys[i]);
        assert(kv.skip(i as int)[0] == key@);
        assert(kv.skip(i as int).drop_first() =~= kv.skip(i + 1));
        match lookup_entry(e, key.as_slice()) {
            Some(v) => {
                if v.len() > 0 {
                    return Some(v);
                } else {
                    assert(v.deep_view() =~= v@);
                    return None;
                }
            },
            None => {},
        }
        i += 1;
    }
    None
}

/// A flag setting, or `default` when absent.
fn take_flag(e: &Vec<(Vec<char>, Vec<char>)>, keys: &[&str], default: bool) -> (b: bool)
    ensures
        b == setting_flag(entries_view(e@), keys@.map_values(|k: &str| k@), default),
{
    match take_setting(e, keys) {
        Some(v) => {
            assert(v.deep_view() =~= v@);
            let l = to_ascii_lowercase(v.as_slice());
            let one = chars_of("1");
            let t = chars_of("true");
            let y = chars_of("yes");
            let on = chars_of("on");
            chars_eq(l.as_slice(), one.as_slice()) || chars_eq(l.as_slice(), t.as_slice())
                || chars_eq(l.as_slice(), y.as_slice()) || chars_eq(l.as_slice(), on.as_slice())
        },
        None => default,
    }
}

/// The setting under `k1` or, failing that, `k2`.
fn setting2(e: &Vec<(Vec<char>, Vec<char>)>, k1: &str, k2: &str) -> (r: Option<Vec<char>>)
    ensures
        r.deep_view() == setting(entries_view(e@), seq![k1@, k2@]),
{
    let keys = [k1, k2];
    assert(keys@.map_values(|k: &str| k@) =~= seq![k1@, k2@]);
    take_setting(e, &keys)
}

/// The setting under `k`.
fn setting1(e: &Vec<(Vec<char>, Vec<char>)>, k: &str) -> (r: Option<Vec<char>>)
    ensures
        r.deep_view() == setting(entries_view(e@), seq![k@]),
{
    let keys = [k];
    assert(keys@.map_values(|k: &str| k@) =~= seq![k@]);
    take_setting(e, &keys)
}

/// The flag under `k1` or, failing that, `k2`.
fn flag2(e: &Vec<(Vec<char>, Vec<char>)>, k1: &str, k2: &str, default: bool) -> (b: bool)
    ensures
        b == setting_flag(entries_view(e@), seq![k1@, k2@], default),
{
    let keys = [k1, k2];
    assert(keys@.map_values(|k: &str| k@) =~= seq![k1@, k2@]);
    take_flag(e, &keys, default)
}

/// An optional string from optional characters.
fn opt_string(v: Option<Vec<char>>) -> (s: Option<String>)
    ensures
        s.deep_view() == v.deep_view(),
{
    match v {
        Some(c) => {
            let s = string_of(c.as_slice());
            assert(c.deep_view() =~= c@);
            Some(s)
        },
        None => None,
    }
}

impl LauncherConfig {
    /// Reads a settings text: `key=value` lines, later lines overriding
    /// earlier ones, legacy key names first; what the text leaves out keeps
    /// the platform default.
    pub fn from_str_with_defaults(contents: &str, defaults: &PlatformDefaults) -> (r: std::io::Result<Self>)
        ensures
            r matches Ok(c) && parsed_config(c, contents@, *defaults),
    {
        let mut config = Self::with_platform_defaults(defaults);
        let e = parse_entries(contents);
        let ghost ev = entries_view(e@);
        config.username = opt_string(setting2(&e, "Name", "username"));
        config.game_directory = opt_string(setting1(&e, "game_directory"));
        config.java_path = opt_string(setting2(&e, "JavaPath", "java_path"));
        config.selected_version = opt_string(setting2(&e, "ChosenVer", "selected_version"));
        match setting2(&e, "Ram", "memory_mb") {
            Some(v) => {
                assert(v.deep_view() =~= v@);
                config.memory_mb = match parse_decimal(v.as_slice(), u32::MAX as u64) {
                    Some(n) => Some(n as u32),
                    None => None,
                };
            },
            None => {},
        }
        match setting2(&e, "CustomParams", "extra_jvm_args") {
            Some(v) => {
                assert(v.deep_view() =~= v@);
                let text = string_of(v.as_slice());
                config.extra_jvm_args = parse_arg_string(text.as_str());
            },
            None => {},
        }
        match setting1(&e, "extra_game_args") {
            Some(v) => {
                assert(v.deep_view() =~= v@);
                let text = string_of(v.as_slice());
                config.extra_game_args = parse_arg_string(text.as_str());
            },
            None => {
                assert(config.extra_game_args.deep_view() =~= Seq::<Seq<char>>::empty());
            },
        }
        config.download_missing_libraries = flag2(
            &e,
            "DownloadMissingLibs",
            "download_missing_libraries",
            config.download_missing_libraries,
        );
        config.redownload_all_files = flag2(
            &e,
            "DownloadAllFiles",
            "redownload_all_files",
            config.redownload_all_files,
        );
        config.show_all_versions = flag2(
            &e,
            "VersionsType",
            "show_all_versions",
            config.show_all_versions,
        );
        match setting2(&e, "DownloadThreads", "download_threads") {
            Some(v) => {
                assert(v.deep_view() =~= v@);
                match parse_decimal(v.as_slice(), usize::MAX as u64) {
                    Some(n) => {
                        config.download_threads = n as usize;
                    },
                    None => {},
                }
            },
            None => {},
        }
        config.async_download = flag2(
            &e,
            "AsyncDownload",
            "async_download",
            config.async_download,
        );
        config.use_custom_java = flag2(
            &e,
            "UseCustomJava",
            "use_custom_java",
            config.use_custom_java,
        );
        config.use_custom_jvm_parameters = flag2(
            &e,
            "UseCustomParams",
            "use_custom_jvm_parameters",
            config.use_custom_jvm_parameters,
        );
        config.save_launch_string = flag2(
            &e,
            "SaveLaunchString",
            "save_launch_string",
            config.save_launch_string,
        );
        config.keep_launcher_open = flag2(
            &e,
            "KeepLauncherOpen",
            "keep_launcher_open",
            config.keep_launcher_open,
        );
        Ok(config)
    }
}

/// The line `key=value`.
pub open spec fn kv_line(key: Seq<char>, value: Seq<char>) -> Seq<char> {
    key + seq!['='] + value
}

/// How a flag is written.
pub open spec fn flag_text(b: bool) -> Seq<char> {
    if b {
        "true"@
    } else {
        "false"@
    }
}

/// `ls` with `key=value` added when a value is present.
pub open spec fn push_opt_line(ls: Seq<Seq<char>>, key: Seq<char>, v: Option<Seq<char>>) -> Seq<Seq<char>> {
    match v {
        Some(x) => ls.push(kv_line(key, x)),
        None => ls,
    }
}

/// `ls` with the written arguments added when there are any.
pub open spec fn push_args_line(ls: Seq<Seq<char>>, key: Seq<char>, args: Seq<Seq<char>>) -> Seq<Seq<char>> {
    if args.len() > 0 {
        ls.push(kv_line(key, join_args_spec(args)))
    } else {
        ls
    }
}

/// The lines of a written settings file, in the legacy key format.
pub open spec fn config_lines(c: LauncherConfig) -> Seq<Seq<char>> {
    let l = seq!["# Vortex Minecraft Launcher configuration"@];
    let l = push_opt_line(l, "Name"@, c.username.deep_view());
    let l = push_opt_line(
        l,
        "Ram"@,
        match c.memory_mb {
            Some(m) => Some(decimal(m as nat)),
            None => None,
        },
    );
    let l = push_opt_line(l, "ChosenVer"@, c.selected_version.deep_view());
    let l = l.push(kv_line("DownloadThreads"@, decimal(c.download_threads as nat)));
    let l = l.push(kv_line("AsyncDownload"@, flag_text(c.async_download)));
    let l = l.push(kv_line("DownloadMissingLibs"@, flag_text(c.download_missing_libraries)));
    let l = l.push(kv_line("DownloadAllFiles"@, flag_text(c.redownload_all_files)));
    let l = l.push(kv_line("VersionsType"@, flag_text(c.show_all_versions)));
    let l = l.push(kv_line("SaveLaunchString"@, flag_text(c.save_launch_string)));
    let l = l.push(kv_line("UseCustomJava"@, flag_text(c.use_custom_java)));
    let l = push_opt_line(l, "JavaPath"@, c.java_path.deep_view());
    let l = l.push(kv_line("UseCustomParams"@, flag_text(c.use_custom_jvm_parameters)));
    let l = push_args_line(l, "CustomParams"@, c.extra_jvm_args.deep_view());
    let l = l.push(kv_line("KeepLauncherOpen"@, flag_text(c.keep_launcher_open)));
    let l = push_opt_line(l, "game_directory"@, c.game_directory.deep_view());
    push_args_line(l, "extra_game_args"@, c.extra_game_args.deep_view())
}

/// Lines, each ended by `\n`.
pub open spec fn text_of_lines(ls: Seq<Seq<char>>) -> Seq<char>
    decreases ls.len(),
{
    if ls.len() == 0 {
        Seq::empty()
    } else {
        text_of_lines(ls.drop_last()) + ls.last() + seq!['\n']
    }
}

/// Adds the line `key=value`.
fn push_kv(lines: &mut Vec<Vec<char>>, key: &str, value: &[char])
    ensures
        views(final(lines)@) == views(old(lines)@).push(kv_line(key@, value@)),
{
    let mut line = chars_of(key);
    line.push('=');
    push_all(&mut line, value);
    assert(line@ =~= kv_line(key@, value@));
    let ghost prev = views(lines@);
    lines.push(line);
    assert(views(lines@) =~= prev.push(kv_line(key@, value@)));
}

/// Adds the line `key=value` when a value is present.
fn push_opt_kv(lines: &mut Vec<Vec<char>>, key: &str, value: &Option<String>)
    ensures
        views(final(lines)@) == push_opt_line(views(old(lines)@), key@, value.deep_view()),
{
    match value {
        Some(v) => {
            let c = chars_of(v.as_str());
            push_kv(lines, key, c.as_slice());
        },
        None => {},
    }
}

/// Adds the line `key=flag`.
fn push_flag(lines: &mut Vec<Vec<char>>, key: &str, b: bool)
    ensures
        views(final(lines)@) == views(old(lines)@).push(kv_line(key@, flag_text(b))),
{
    let v = if b {
        chars_of("true")
    } else {
        chars_of("false")
    };
    push_kv(lines, key, v.as_slice());
}

/// Adds the written arguments when there are any.
fn push_args(lines: &mut Vec<Vec<char>>, key: &str, args: &Vec<String>)
    ensures
        views(final(lines)@) == push_args_line(views(old(lines)@), key@, args.deep_view()),
{
    if args.len() > 0 {
        let joined = join_args(args.as_slice());
        assert(args@.map_values(|a: String| a@) =~= args.deep_view());
        let c = chars_of(joined.as_str());
        push_kv(lines, key, c.as_slice());
    }
}

impl LauncherConfig {
    /// Writes the settings in the legacy key format that
    /// `from_str_with_defaults` reads (see `lemma_config_round_trip`).
    pub fn to_config_string(&self) -> (s: String)
        ensures
            s@ == text_of_lines(config_lines(*self)),
    {
        let mut lines: Vec<Vec<char>> = Vec::new();
        lines.push(chars_of("# Vortex Minecraft Launcher configuration"));
        assert(views(lines@) =~= seq!["# Vortex Minecraft Launcher configuration"@]);
        push_opt_kv(&mut lines, "Name", &self.username);
        match self.memory_mb {
            Some(m) => {
                let d = format_decimal(m as u64);
                push_kv(&mut lines, "Ram", d.as_slice());
            },
            None => {},
        }
        push_opt_kv(&mut lines, "ChosenVer", &self.selected_version);
        let threads = format_decimal(self.download_threads as u64);
        push_kv(&mut lines, "DownloadThreads", threads.as_slice());
        push_flag(&mut lines, "AsyncDownload", self.async_download);
        push_flag(&mut lines, "DownloadMissingLibs", self.download_missing_libraries);
        push_flag(&mut lines, "DownloadAllFiles", self.redownload_all_files);
        push_flag(&mut lines, "VersionsType", self.show_all_versions);
        push_flag(&mut lines, "SaveLaunchString", self.save_launch_string);
        push_flag(&mut lines, "UseCustomJava", self.use_custom_java);
        push_opt_kv(&mut lines, "JavaPath", &self.java_path);
        push_flag(&mut lines, "UseCustomParams", self.use_custom_jvm_parameters);
        push_args(&mut lines, "CustomParams", &self.extra_jvm_args);
        push_flag(&mut lines, "KeepLauncherOpen", self.keep_launcher_open);
        push_opt_kv(&mut lines, "game_directory", &self.game_directory);
        push_args(&mut lines, "extra_game_args", &self.extra_game_args);
        let ghost lv = views(lines@);
        assert(lv == config_lines(*self));
        let mut out: Vec<char> = Vec::new();
        let mut i: usize = 0;
        assert(lv.take(0) =~= Seq::<Seq<char>>::empty());
        while i < lines.len()
            invariant
                i <= lines.len(),
                lv == views(lines@),
                out@ == text_of_lines(lv.take(i as int)),
            decreases lines.len() - i,
        {
            push_all(&mut out, lines[i].as_slice());
            out.push('\n');
            assert(lv.take(i + 1).drop_last() =~= lv.take(i as int));
            assert(out@ =~= text_of_lines(lv.take(i + 1)));
            i += 1;
        }
        assert(lv.take(lines.len() as int) =~= lv);
        string_of(out.as_slice())
    }
}

} // verus!
