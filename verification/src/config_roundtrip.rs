//! Settings written by `to_config_string` are read back unchanged by
//! `from_str_with_defaults` (see `survives_round_trip` for when they are).
use vstd::prelude::*;

use crate::config::{
    config_entries, config_lines, entry_value, escape_char, escape_quoted, join_args_spec, kv_line,
    line_entry, needs_quotes, parse_args, parsed_config,
    push_args_line, push_opt_line, quote_arg_spec, setting, setting_value, text_entries,
    text_of_lines, flag_text, truthy, LauncherConfig, PlatformDefaults,
};
use crate::text::{
    all_digits, ascii_lowercase, decimal, digit_char, digits_value, find_char, is_ws,
    lines_acc, lines_spec, parse_unsigned, split_once_spec, strip_cr, trim, trim_end, trim_start,
};

verus! {

/// A value that the settings file holds as it is: not empty, neither
/// starting nor ending with white space, and on one line.
pub open spec fn keeps_as_value(v: Seq<char>) -> bool {
    &&& v.len() > 0
    &&& !is_ws(v[0])
    &&& !is_ws(v.last())
    &&& !v.contains('\n')
}

/// An optional value the settings file holds as it is.
pub open spec fn keeps_opt(v: Option<Seq<char>>) -> bool {
    match v {
        Some(x) => keeps_as_value(x),
        None => true,
    }
}

/// Arguments that come back unchanged from a settings line: the list reads
/// back as `join_args` writes it (by `lemma_join_then_parse_exactly`, the
/// lists in which every argument `reads_back`), and no argument holds a
/// line break, which would end the line it is written on.
pub open spec fn keeps_args(args: Seq<Seq<char>>) -> bool {
    &&& parse_args(join_args_spec(args)) == args
    &&& forall|i: int, j: int| 0 <= i < args.len() && 0 <= j < args[i].len() ==> #[trigger] args[i][j] != '\n'
}

/// Settings that come back unchanged from being written and read: text
/// values that are not empty, do not start or end with white space (the
/// reader trims values and drops empty ones) and stay on one line;
/// argument lists that come back from a line (see `keeps_args`); a memory
/// setting (an absent one reads back as the platform default); and launch
/// parameters, unless the platform's default parameters read as none (an
/// empty list is not written and reads back as the default).
pub open spec fn survives_round_trip(c: LauncherConfig, d: PlatformDefaults) -> bool {
    &&& keeps_opt(c.username.deep_view())
    &&& keeps_opt(c.selected_version.deep_view())
    &&& keeps_opt(c.java_path.deep_view())
    &&& keeps_opt(c.game_directory.deep_view())
    &&& c.memory_mb is Some
    &&& keeps_args(c.extra_jvm_args.deep_view())
    &&& keeps_args(c.extra_game_args.deep_view())
    &&& (c.extra_jvm_args@.len() > 0 || parse_args(d.default_modern_jvm_arguments@).len() == 0)
}

/// Two configurations hold the same settings.
pub open spec fn same_settings(a: LauncherConfig, b: LauncherConfig) -> bool {
    &&& a.username.deep_view() == b.username.deep_view()
    &&& a.game_directory.deep_view() == b.game_directory.deep_view()
    &&& a.java_path.deep_view() == b.java_path.deep_view()
    &&& a.selected_version.deep_view() == b.selected_version.deep_view()
    &&& a.memory_mb == b.memory_mb
    &&& a.extra_jvm_args.deep_view() == b.extra_jvm_args.deep_view()
    &&& a.extra_game_args.deep_view() == b.extra_game_args.deep_view()
    &&& a.download_missing_libraries == b.download_missing_libraries
    &&& a.redownload_all_files == b.redownload_all_files
    &&& a.show_all_versions == b.show_all_versions
    &&& a.download_threads == b.download_threads
    &&& a.async_download == b.async_download
    &&& a.use_custom_java == b.use_custom_java
    &&& a.use_custom_jvm_parameters == b.use_custom_jvm_parameters
    &&& a.save_launch_string == b.save_launch_string
    &&& a.keep_launcher_open == b.keep_launcher_open
}

pub proof fn lemma_decimal_reads_back(n: nat)
    ensures
        decimal(n).len() > 0,
        all_digits(decimal(n)),
        digits_value(decimal(n)) == n,
    decreases n,
{
    let k = n % 10;
    assert(digit_char(k) as u32 == ('0' as u32) + k);
    assert(crate::text::digit_value(digit_char(k)) == k);
    if n < 10 {
        let d = decimal(n);
        assert(d.drop_last() =~= Seq::<char>::empty());
        assert(d.last() == digit_char(n));
        assert(digits_value(d) == digits_value(d.drop_last()) * 10 + crate::text::digit_value(d.last()));
        assert(digits_value(Seq::<char>::empty()) == 0);
        assert(k == n);
    } else {
        lemma_decimal_reads_back(n / 10);
        let d = decimal(n);
        assert(d.drop_last() =~= decimal(n / 10));
        assert(d.last() == digit_char(k));
        assert(digits_value(d) == digits_value(d.drop_last()) * 10 + crate::text::digit_value(d.last()));
        assert((n / 10) * 10 + k == n);
        assert(all_digits(d)) by {
            assert forall|i: int| 0 <= i < d.len() implies '0' <= #[trigger] d[i] <= '9' by {
                if i < d.len() - 1 {
                    assert(d[i] == decimal(n / 10)[i]);
                }
            }
        }
    }
}

pub proof fn lemma_parse_decimal(n: nat)
    ensures
        parse_unsigned(decimal(n)) == Some(n),
        keeps_as_value(decimal(n)),
{
    lemma_decimal_reads_back(n);
    let d = decimal(n);
    assert('0' <= d[0] <= '9');
    assert('0' <= d.last() <= '9');
    assert(!d.contains('\n')) by {
        if d.contains('\n') {
            let i = choose|i: int| 0 <= i < d.len() && d[i] == '\n';
            assert('0' <= d[i] <= '9');
        }
    }
}

proof fn lemma_lines_of_line(l: Seq<char>, s: Seq<char>, cur: Seq<char>, acc: Seq<Seq<char>>)
    requires
        !l.contains('\n'),
    ensures
        lines_acc(l + seq!['\n'] + s, cur, acc) == lines_acc(s, Seq::empty(), acc.push(strip_cr(cur + l))),
    decreases l.len(),
{
    let t = l + seq!['\n'] + s;
    if l.len() == 0 {
        assert(t[0] == '\n');
        assert(t.drop_first() =~= s);
        assert(cur + l =~= cur);
    } else {
        assert(t[0] == l[0]);
        assert(l[0] != '\n');
        assert(t.drop_first() =~= l.drop_first() + seq!['\n'] + s);
        assert(!l.drop_first().contains('\n')) by {
            if l.drop_first().contains('\n') {
                let i = choose|i: int| 0 <= i < l.drop_first().len() && l.drop_first()[i] == '\n';
                assert(l[i + 1] == '\n');
            }
        }
        lemma_lines_of_line(l.drop_first(), s, cur.push(l[0]), acc);
        assert(cur.push(l[0]) + l.drop_first() =~= cur + l);
    }
}

/// Lines that `str::lines` gives back as they are: on one line and not
/// ending with a carriage return.
pub open spec fn plain_lines(ls: Seq<Seq<char>>) -> bool {
    forall|i: int| 0 <= i < ls.len() ==> !(#[trigger] ls[i]).contains('\n') && (ls[i].len() == 0 || ls[i].last() != '\r')
}

proof fn lemma_lines_of_text(ls: Seq<Seq<char>>, s: Seq<char>, acc: Seq<Seq<char>>)
    requires
        plain_lines(ls),
    ensures
        lines_acc(text_of_lines(ls) + s, Seq::empty(), acc) == lines_acc(s, Seq::empty(), acc + ls),
    decreases ls.len(),
{
    if ls.len() == 0 {
        assert(text_of_lines(ls) + s =~= s);
        assert(acc + ls =~= acc);
    } else {
        let init = ls.drop_last();
        let l = ls.last();
        assert(plain_lines(init)) by {
            assert forall|i: int| 0 <= i < init.len() implies !(#[trigger] init[i]).contains('\n') && (init[i].len()
                == 0 || init[i].last() != '\r') by {
                assert(init[i] == ls[i]);
            }
        }
        assert(!ls[ls.len() - 1].contains('\n'));
        assert(text_of_lines(ls) + s =~= text_of_lines(init) + (l + seq!['\n'] + s));
        lemma_lines_of_text(init, l + seq!['\n'] + s, acc);
        lemma_lines_of_line(l, s, Seq::empty(), acc + init);
        assert(Seq::<char>::empty() + l =~= l);
        assert(strip_cr(l) == l);
        assert((acc + init).push(l) =~= acc + ls);
    }
}

proof fn lemma_lines_round_trip(ls: Seq<Seq<char>>)
    requires
        plain_lines(ls),
    ensures
        lines_spec(text_of_lines(ls)) == ls,
{
    lemma_lines_of_text(ls, Seq::empty(), Seq::empty());
    assert(text_of_lines(ls) + Seq::<char>::empty() =~= text_of_lines(ls));
    assert(Seq::<Seq<char>>::empty() + ls =~= ls);
}

/// A settings key: not empty, no white space or `=`, not a comment.
pub open spec fn plain_key(k: Seq<char>) -> bool {
    &&& k.len() > 0
    &&& k[0] != '#'
    &&& forall|i: int| 0 <= i < k.len() ==> !is_ws(#[trigger] k[i]) && k[i] != '='
}

proof fn lemma_trim_plain(s: Seq<char>)
    requires
        s.len() > 0,
        !is_ws(s[0]),
        !is_ws(s.last()),
    ensures
        trim(s) == s,
{
    assert(trim_start(s) == s);
    assert(trim_end(s) == s);
}

proof fn lemma_find_after(k: Seq<char>, t: Seq<char>, c: char)
    requires
        forall|i: int| 0 <= i < k.len() ==> #[trigger] k[i] != c,
        t.len() > 0,
        t[0] == c,
    ensures
        find_char(k + t, c) == k.len(),
    decreases k.len(),
{
    let s = k + t;
    if k.len() == 0 {
        assert(s =~= t);
    } else {
        assert(s[0] == k[0]);
        assert(s.drop_first() =~= k.drop_first() + t);
        assert forall|i: int| 0 <= i < k.drop_first().len() implies #[trigger] k.drop_first()[i] != c by {
            assert(k.drop_first()[i] == k[i + 1]);
        }
        lemma_find_after(k.drop_first(), t, c);
    }
}

proof fn lemma_kv_entry(k: Seq<char>, v: Seq<char>)
    requires
        plain_key(k),
        keeps_as_value(v),
    ensures
        line_entry(kv_line(k, v)) == Some((k, v)),
{
    let l = kv_line(k, v);
    assert(l[0] == k[0]);
    assert(l.last() == v.last());
    lemma_trim_plain(l);
    lemma_trim_plain(v);
    assert(!is_ws(k.last()));
    lemma_trim_plain(k);
    assert(l =~= k + (seq!['='] + v));
    lemma_find_after(k, seq!['='] + v, '=');
    assert(l.take(k.len() as int) =~= k);
    assert(l.skip(k.len() + 1int) =~= v);
    assert(split_once_spec(l, '=') == Some((k, v)));
}

proof fn lemma_entries_push(ls: Seq<Seq<char>>, l: Seq<char>)
    ensures
        config_entries(ls.push(l)) == match line_entry(l) {
            Some(e) => config_entries(ls).push(e),
            None => config_entries(ls),
        },
{
    assert(ls.push(l).drop_last() =~= ls);
}

proof fn lemma_plain_push(ls: Seq<Seq<char>>, l: Seq<char>)
    requires
        plain_lines(ls),
        !l.contains('\n'),
        l.len() == 0 || l.last() != '\r',
    ensures
        plain_lines(ls.push(l)),
{
    assert forall|i: int| 0 <= i < ls.push(l).len() implies !(#[trigger] ls.push(l)[i]).contains('\n') && (ls.push(
        l,
    )[i].len() == 0 || ls.push(l)[i].last() != '\r') by {
        if i < ls.len() {
            assert(ls.push(l)[i] == ls[i]);
        }
    }
}

proof fn lemma_kv_line_plain(k: Seq<char>, v: Seq<char>)
    requires
        plain_key(k),
        keeps_as_value(v),
    ensures
        !kv_line(k, v).contains('\n'),
        kv_line(k, v).last() != '\r',
{
    let l = kv_line(k, v);
    assert(l.last() == v.last());
    assert(is_ws('\r'));
    if l.contains('\n') {
        let i = choose|i: int| 0 <= i < l.len() && l[i] == '\n';
        assert(is_ws('\n'));
        if i < k.len() {
            assert(l[i] == k[i]);
        } else if i > k.len() {
            assert(l[i] == v[i - k.len() - 1]);
            assert(v.contains('\n'));
        }
    }
}

/// Adds one key's line; plain lines stay plain and the entries grow by the
/// key and value.
proof fn lemma_push_kv(ls: Seq<Seq<char>>, k: Seq<char>, v: Seq<char>)
    requires
        plain_lines(ls),
        plain_key(k),
        keeps_as_value(v),
    ensures
        plain_lines(ls.push(kv_line(k, v))),
        config_entries(ls.push(kv_line(k, v))) == config_entries(ls).push((k, v)),
{
    lemma_kv_line_plain(k, v);
    lemma_plain_push(ls, kv_line(k, v));
    lemma_entries_push(ls, kv_line(k, v));
    lemma_kv_entry(k, v);
}

/// The entries with `key=value` added when a value is present.
pub open spec fn push_opt_entry(e: Seq<(Seq<char>, Seq<char>)>, key: Seq<char>, v: Option<Seq<char>>) -> Seq<
    (Seq<char>, Seq<char>),
> {
    match v {
        Some(x) => e.push((key, x)),
        None => e,
    }
}

/// The entries with the written arguments added when there are any.
pub open spec fn push_args_entry(e: Seq<(Seq<char>, Seq<char>)>, key: Seq<char>, args: Seq<Seq<char>>) -> Seq<
    (Seq<char>, Seq<char>),
> {
    if args.len() > 0 {
        e.push((key, join_args_spec(args)))
    } else {
        e
    }
}

proof fn lemma_push_opt(ls: Seq<Seq<char>>, k: Seq<char>, v: Option<Seq<char>>)
    requires
        plain_lines(ls),
        plain_key(k),
        keeps_opt(v),
    ensures
        plain_lines(push_opt_line(ls, k, v)),
        config_entries(push_opt_line(ls, k, v)) == push_opt_entry(config_entries(ls), k, v),
{
    if let Some(x) = v {
        lemma_push_kv(ls, k, x);
    }
}

proof fn lemma_escape_keeps_lines(a: Seq<char>)
    requires
        !a.contains('\n'),
    ensures
        !escape_quoted(a).contains('\n'),
    decreases a.len(),
{
    if a.len() > 0 {
        assert(!a.drop_first().contains('\n')) by {
            if a.drop_first().contains('\n') {
                let i = choose|i: int| 0 <= i < a.drop_first().len() && a.drop_first()[i] == '\n';
                assert(a[i + 1] == '\n');
            }
        }
        lemma_escape_keeps_lines(a.drop_first());
        let e = escape_quoted(a);
        let head = escape_char(a[0]);
        assert(e =~= head + escape_quoted(a.drop_first()));
        if e.contains('\n') {
            let i = choose|i: int| 0 <= i < e.len() && e[i] == '\n';
            if i >= head.len() {
                assert(e[i] == escape_quoted(a.drop_first())[i - head.len()]);
            } else {
                assert(a[0] != '\n');
            }
        }
    }
}

proof fn lemma_quote_keeps(a: Seq<char>)
    requires
        !a.contains('\n'),
    ensures
        keeps_as_value(quote_arg_spec(a)),
{
    assert(is_ws('\n'));
    if a.len() > 0 && forall|i: int| 0 <= i < a.len() ==> !needs_quotes(#[trigger] a[i]) {
        assert(!needs_quotes(a[0]));
        assert(!needs_quotes(a[a.len() - 1]));
    } else {
        lemma_escape_keeps_lines(a);
        let q = seq!['"'] + escape_quoted(a) + seq!['"'];
        assert(q[0] == '"');
        assert(q.last() == '"');
        if q.contains('\n') {
            let i = choose|i: int| 0 <= i < q.len() && q[i] == '\n';
            assert(0 < i < q.len() - 1);
            assert(q[i] == escape_quoted(a)[i - 1]);
        }
    }
}

proof fn lemma_join_keeps(args: Seq<Seq<char>>)
    requires
        args.len() > 0,
        forall|i: int, j: int| 0 <= i < args.len() && 0 <= j < args[i].len() ==> #[trigger] args[i][j] != '\n',
    ensures
        keeps_as_value(join_args_spec(args)),
    decreases args.len(),
{
    assert(!args[0].contains('\n')) by {
        if args[0].contains('\n') {
            let j = choose|j: int| 0 <= j < args[0].len() && args[0][j] == '\n';
            assert(args[0][j] != '\n');
        }
    }
    lemma_quote_keeps(args[0]);
    if args.len() > 1 {
        let rest = args.drop_first();
        assert forall|i: int, j: int| 0 <= i < rest.len() && 0 <= j < rest[i].len() implies #[trigger] rest[i][j]
            != '\n' by {
            assert(rest[i] == args[i + 1]);
        }
        lemma_join_keeps(rest);
        let q = quote_arg_spec(args[0]);
        let r = join_args_spec(rest);
        let s = q + seq![' '] + r;
        assert(join_args_spec(args) == s);
        assert(s[0] == q[0]);
        assert(s.last() == r.last());
        if s.contains('\n') {
            let i = choose|i: int| 0 <= i < s.len() && s[i] == '\n';
            if i < q.len() {
                assert(s[i] == q[i]);
                assert(q.contains('\n'));
            } else if i > q.len() {
                assert(s[i] == r[i - q.len() - 1]);
                assert(r.contains('\n'));
            }
        }
    }
}

proof fn lemma_push_args(ls: Seq<Seq<char>>, k: Seq<char>, args: Seq<Seq<char>>)
    requires
        plain_lines(ls),
        plain_key(k),
        keeps_args(args),
    ensures
        plain_lines(push_args_line(ls, k, args)),
        config_entries(push_args_line(ls, k, args)) == push_args_entry(config_entries(ls), k, args),
{
    if args.len() > 0 {
        lemma_join_keeps(args);
        lemma_push_kv(ls, k, join_args_spec(args));
    }
}

/// The first entries a written settings file holds, in order: names,
/// memory, version, download settings and the custom Java switch.
pub open spec fn early_entries(c: LauncherConfig) -> Seq<(Seq<char>, Seq<char>)> {
    let e = Seq::<(Seq<char>, Seq<char>)>::empty();
    let e = push_opt_entry(e, "Name"@, c.username.deep_view());
    let e = push_opt_entry(
        e,
        "Ram"@,
        match c.memory_mb {
            Some(m) => Some(decimal(m as nat)),
            None => None,
        },
    );
    let e = push_opt_entry(e, "ChosenVer"@, c.selected_version.deep_view());
    let e = e.push(("DownloadThreads"@, decimal(c.download_threads as nat)));
    let e = e.push(("AsyncDownload"@, flag_text(c.async_download)));
    let e = e.push(("DownloadMissingLibs"@, flag_text(c.download_missing_libraries)));
    let e = e.push(("DownloadAllFiles"@, flag_text(c.redownload_all_files)));
    let e = e.push(("VersionsType"@, flag_text(c.show_all_versions)));
    let e = e.push(("SaveLaunchString"@, flag_text(c.save_launch_string)));
    e.push(("UseCustomJava"@, flag_text(c.use_custom_java)))
}

/// The entries a written settings file holds, in order.
pub open spec fn written_entries(c: LauncherConfig) -> Seq<(Seq<char>, Seq<char>)> {
    let e = early_entries(c);
    let e = push_opt_entry(e, "JavaPath"@, c.java_path.deep_view());
    let e = e.push(("UseCustomParams"@, flag_text(c.use_custom_jvm_parameters)));
    let e = push_args_entry(e, "CustomParams"@, c.extra_jvm_args.deep_view());
    let e = e.push(("KeepLauncherOpen"@, flag_text(c.keep_launcher_open)));
    let e = push_opt_entry(e, "game_directory"@, c.game_directory.deep_view());
    push_args_entry(e, "extra_game_args"@, c.extra_game_args.deep_view())
}

proof fn lemma_flag_keeps(b: bool)
    ensures
        keeps_as_value(flag_text(b)),
        truthy(flag_text(b)) == b,
{
    reveal_strlit("true");
    reveal_strlit("false");
    reveal_strlit("1");
    reveal_strlit("yes");
    reveal_strlit("on");
    assert(is_ws('\n'));
    let t = flag_text(b);
    assert(ascii_lowercase(t) =~= t);
    if b {
        assert(t =~= seq!['t', 'r', 'u', 'e']);
    } else {
        assert(t =~= seq!['f', 'a', 'l', 's', 'e']);
        assert(t != "true"@);
        assert(t != "1"@);
        assert(t != "yes"@);
        assert(t != "on"@);
    }
    if t.contains('\n') {
        let i = choose|i: int| 0 <= i < t.len() && t[i] == '\n';
    }
}

proof fn lemma_keys_plain()
    ensures
        plain_key("Name"@),
        plain_key("Ram"@),
        plain_key("ChosenVer"@),
        plain_key("DownloadThreads"@),
        plain_key("AsyncDownload"@),
        plain_key("DownloadMissingLibs"@),
        plain_key("DownloadAllFiles"@),
        plain_key("VersionsType"@),
        plain_key("SaveLaunchString"@),
        plain_key("UseCustomJava"@),
        plain_key("JavaPath"@),
        plain_key("UseCustomParams"@),
        plain_key("CustomParams"@),
        plain_key("KeepLauncherOpen"@),
        plain_key("game_directory"@),
        plain_key("extra_game_args"@),
{
    reveal_strlit("Name");
    reveal_strlit("Ram");
    reveal_strlit("ChosenVer");
    reveal_strlit("DownloadThreads");
    reveal_strlit("AsyncDownload");
    reveal_strlit("DownloadMissingLibs");
    reveal_strlit("DownloadAllFiles");
    reveal_strlit("VersionsType");
    reveal_strlit("SaveLaunchString");
    reveal_strlit("UseCustomJava");
    reveal_strlit("JavaPath");
    reveal_strlit("UseCustomParams");
    reveal_strlit("CustomParams");
    reveal_strlit("KeepLauncherOpen");
    reveal_strlit("game_directory");
    reveal_strlit("extra_game_args");
}

proof fn lemma_written_entries(c: LauncherConfig, d: PlatformDefaults)
    requires
        survives_round_trip(c, d),
    ensures
        text_entries(text_of_lines(config_lines(c))) == written_entries(c),
{
    lemma_keys_plain();
    let header = "# Vortex Minecraft Launcher configuration"@;
    reveal_strlit("# Vortex Minecraft Launcher configuration");
    let l0 = seq![header];
    assert(is_ws('\r'));
    assert(header.last() == 'n');
    assert(!header.contains('\n')) by {
        if header.contains('\n') {
            let i = choose|i: int| 0 <= i < header.len() && header[i] == '\n';
        }
    }
    lemma_plain_push(Seq::empty(), header);
    assert(Seq::<Seq<char>>::empty().push(header) =~= l0);
    lemma_entries_push(Seq::empty(), header);
    assert(trim_start(header) == header);
    assert(trim_end(header) == header);
    assert(line_entry(header) is None);
    assert(config_entries(Seq::<Seq<char>>::empty()) =~= Seq::<(Seq<char>, Seq<char>)>::empty());
    let ram = match c.memory_mb {
        Some(m) => Some(decimal(m as nat)),
        None => None,
    };
    if let Some(m) = c.memory_mb {
        lemma_parse_decimal(m as nat);
    }
    lemma_parse_decimal(c.download_threads as nat);
    lemma_flag_keeps(c.async_download);
    lemma_flag_keeps(c.download_missing_libraries);
    lemma_flag_keeps(c.redownload_all_files);
    lemma_flag_keeps(c.show_all_versions);
    lemma_flag_keeps(c.save_launch_string);
    lemma_flag_keeps(c.use_custom_java);
    lemma_flag_keeps(c.use_custom_jvm_parameters);
    lemma_flag_keeps(c.keep_launcher_open);
    let l1 = push_opt_line(l0, "Name"@, c.username.deep_view());
    lemma_push_opt(l0, "Name"@, c.username.deep_view());
    let l2 = push_opt_line(l1, "Ram"@, ram);
    lemma_push_opt(l1, "Ram"@, ram);
    let l3 = push_opt_line(l2, "ChosenVer"@, c.selected_version.deep_view());
    lemma_push_opt(l2, "ChosenVer"@, c.selected_version.deep_view());
    let l4 = l3.push(kv_line("DownloadThreads"@, decimal(c.download_threads as nat)));
    lemma_push_kv(l3, "DownloadThreads"@, decimal(c.download_threads as nat));
    let l5 = l4.push(kv_line("AsyncDownload"@, flag_text(c.async_download)));
    lemma_push_kv(l4, "AsyncDownload"@, flag_text(c.async_download));
    let l6 = l5.push(kv_line("DownloadMissingLibs"@, flag_text(c.download_missing_libraries)));
    lemma_push_kv(l5, "DownloadMissingLibs"@, flag_text(c.download_missing_libraries));
    let l7 = l6.push(kv_line("DownloadAllFiles"@, flag_text(c.redownload_all_files)));
    lemma_push_kv(l6, "DownloadAllFiles"@, flag_text(c.redownload_all_files));
    let l8 = l7.push(kv_line("VersionsType"@, flag_text(c.show_all_versions)));
    lemma_push_kv(l7, "VersionsType"@, flag_text(c.show_all_versions));
    let l9 = l8.push(kv_line("SaveLaunchString"@, flag_text(c.save_launch_string)));
    lemma_push_kv(l8, "SaveLaunchString"@, flag_text(c.save_launch_string));
    let l10 = l9.push(kv_line("UseCustomJava"@, flag_text(c.use_custom_java)));
    lemma_push_kv(l9, "UseCustomJava"@, flag_text(c.use_custom_java));
    let l11 = push_opt_line(l10, "JavaPath"@, c.java_path.deep_view());
    lemma_push_opt(l10, "JavaPath"@, c.java_path.deep_view());
    let l12 = l11.push(kv_line("UseCustomParams"@, flag_text(c.use_custom_jvm_parameters)));
    lemma_push_kv(l11, "UseCustomParams"@, flag_text(c.use_custom_jvm_parameters));
    let l13 = push_args_line(l12, "CustomParams"@, c.extra_jvm_args.deep_view());
    lemma_push_args(l12, "CustomParams"@, c.extra_jvm_args.deep_view());
    let l14 = l13.push(kv_line("KeepLauncherOpen"@, flag_text(c.keep_launcher_open)));
    lemma_push_kv(l13, "KeepLauncherOpen"@, flag_text(c.keep_launcher_open));
    let l15 = push_opt_line(l14, "game_directory"@, c.game_directory.deep_view());
    lemma_push_opt(l14, "game_directory"@, c.game_directory.deep_view());
    let l16 = push_args_line(l15, "extra_game_args"@, c.extra_game_args.deep_view());
    lemma_push_args(l15, "extra_game_args"@, c.extra_game_args.deep_view());
    assert(l16 == config_lines(c));
    lemma_lines_round_trip(l16);
}

broadcast proof fn lemma_value_after_push_b(e: Seq<(Seq<char>, Seq<char>)>, p: (Seq<char>, Seq<char>), key: Seq<char>)
    ensures
        #[trigger] entry_value(e.push(p), key) == if p.0 == key {
            Some(p.1)
        } else {
            entry_value(e, key)
        },
{
    assert(e.push(p).drop_last() =~= e);
}

broadcast proof fn lemma_value_after_opt_b(e: Seq<(Seq<char>, Seq<char>)>, k: Seq<char>, v: Option<Seq<char>>, key: Seq<char>)
    ensures
        #[trigger] entry_value(push_opt_entry(e, k, v), key) == if v is Some && k == key {
            v
        } else {
            entry_value(e, key)
        },
{
    if let Some(x) = v {
        lemma_value_after_push_b(e, (k, x), key);
    }
}

broadcast proof fn lemma_value_after_args_b(e: Seq<(Seq<char>, Seq<char>)>, k: Seq<char>, args: Seq<Seq<char>>, key: Seq<char>)
    ensures
        #[trigger] entry_value(push_args_entry(e, k, args), key) == if args.len() > 0 && k == key {
            Some(join_args_spec(args))
        } else {
            entry_value(e, key)
        },
{
    if args.len() > 0 {
        lemma_value_after_push_b(e, (k, join_args_spec(args)), key);
    }
}

proof fn lemma_settings_keys(e: Seq<(Seq<char>, Seq<char>)>, a: Seq<char>, b: Seq<char>)
    ensures
        setting_value(e, seq![a, b]) == match entry_value(e, a) {
            Some(v) => Some(v),
            None => entry_value(e, b),
        },
        setting_value(e, seq![a]) == entry_value(e, a),
{
    assert(seq![a, b].drop_first() =~= seq![b]);
    assert(seq![b].drop_first() =~= Seq::<Seq<char>>::empty());
    assert(seq![a].drop_first() =~= Seq::<Seq<char>>::empty());
    assert(setting_value(e, seq![b]) == match entry_value(e, b) {
        Some(v) => Some(v),
        None => setting_value(e, Seq::<Seq<char>>::empty()),
    });
}

/// The value each key of a written file holds.
#[verifier::rlimit(60)]
proof fn lemma_written_values(c: LauncherConfig)
    ensures
        entry_value(written_entries(c), "Name"@) == c.username.deep_view(),
        entry_value(written_entries(c), "username"@) is None,
        entry_value(written_entries(c), "Ram"@) == match c.memory_mb {
            Some(m) => Some(decimal(m as nat)),
            None => None,
        },
        entry_value(written_entries(c), "ChosenVer"@) == c.selected_version.deep_view(),
        entry_value(written_entries(c), "selected_version"@) is None,
        entry_value(written_entries(c), "DownloadThreads"@) == Some(decimal(c.download_threads as nat)),
        entry_value(written_entries(c), "AsyncDownload"@) == Some(flag_text(c.async_download)),
        entry_value(written_entries(c), "DownloadMissingLibs"@) == Some(flag_text(c.download_missing_libraries)),
        entry_value(written_entries(c), "DownloadAllFiles"@) == Some(flag_text(c.redownload_all_files)),
        entry_value(written_entries(c), "VersionsType"@) == Some(flag_text(c.show_all_versions)),
        entry_value(written_entries(c), "SaveLaunchString"@) == Some(flag_text(c.save_launch_string)),
        entry_value(written_entries(c), "UseCustomJava"@) == Some(flag_text(c.use_custom_java)),
        entry_value(written_entries(c), "JavaPath"@) == c.java_path.deep_view(),
        entry_value(written_entries(c), "java_path"@) is None,
        entry_value(written_entries(c), "UseCustomParams"@) == Some(flag_text(c.use_custom_jvm_parameters)),
        entry_value(written_entries(c), "CustomParams"@) == if c.extra_jvm_args@.len() > 0 {
            Some(join_args_spec(c.extra_jvm_args.deep_view()))
        } else {
            None
        },
        entry_value(written_entries(c), "extra_jvm_args"@) is None,
        entry_value(written_entries(c), "KeepLauncherOpen"@) == Some(flag_text(c.keep_launcher_open)),
        entry_value(written_entries(c), "game_directory"@) == c.game_directory.deep_view(),
        entry_value(written_entries(c), "extra_game_args"@) == if c.extra_game_args@.len() > 0 {
            Some(join_args_spec(c.extra_game_args.deep_view()))
        } else {
            None
        },
{
    broadcast use lemma_value_after_push_b, lemma_value_after_opt_b, lemma_value_after_args_b;

    reveal_strlit("Name");
    reveal_strlit("username");
    reveal_strlit("Ram");
    reveal_strlit("ChosenVer");
    reveal_strlit("selected_version");
    reveal_strlit("DownloadThreads");
    reveal_strlit("AsyncDownload");
    reveal_strlit("DownloadMissingLibs");
    reveal_strlit("DownloadAllFiles");
    reveal_strlit("VersionsType");
    reveal_strlit("SaveLaunchString");
    reveal_strlit("UseCustomJava");
    reveal_strlit("JavaPath");
    reveal_strlit("java_path");
    reveal_strlit("UseCustomParams");
    reveal_strlit("CustomParams");
    reveal_strlit("extra_jvm_args");
    reveal_strlit("KeepLauncherOpen");
    reveal_strlit("game_directory");
    reveal_strlit("extra_game_args");
    assert("Name"@.len() == 4 && "Name"@[0] == 'N');
    assert("username"@.len() == 8 && "username"@[0] == 'u');
    assert("Ram"@.len() == 3 && "Ram"@[0] == 'R');
    assert("ChosenVer"@.len() == 9 && "ChosenVer"@[0] == 'C');
    assert("selected_version"@.len() == 16 && "selected_version"@[0] == 's');
    assert("DownloadThreads"@.len() == 15 && "DownloadThreads"@[0] == 'D');
    assert("AsyncDownload"@.len() == 13 && "AsyncDownload"@[0] == 'A');
    assert("DownloadMissingLibs"@.len() == 19 && "DownloadMissingLibs"@[0] == 'D');
    assert("DownloadAllFiles"@.len() == 16 && "DownloadAllFiles"@[0] == 'D');
    assert("VersionsType"@.len() == 12 && "VersionsType"@[0] == 'V');
    assert("SaveLaunchString"@.len() == 16 && "SaveLaunchString"@[0] == 'S');
    assert("UseCustomJava"@.len() == 13 && "UseCustomJava"@[0] == 'U');
    assert("JavaPath"@.len() == 8 && "JavaPath"@[0] == 'J');
    assert("java_path"@.len() == 9 && "java_path"@[0] == 'j');
    assert("UseCustomParams"@.len() == 15 && "UseCustomParams"@[0] == 'U');
    assert("CustomParams"@.len() == 12 && "CustomParams"@[0] == 'C');
    assert("extra_jvm_args"@.len() == 14 && "extra_jvm_args"@[0] == 'e');
    assert("KeepLauncherOpen"@.len() == 16 && "KeepLauncherOpen"@[0] == 'K');
    assert("game_directory"@.len() == 14 && "game_directory"@[0] == 'g');
    assert("extra_game_args"@.len() == 15 && "extra_game_args"@[0] == 'e');
}

/// Law: settings written by `to_config_string` and read back by
/// `from_str_with_defaults` are the settings that were written, for every
/// configuration that `survives_round_trip` admits.
pub proof fn lemma_config_round_trip(c: LauncherConfig, d: PlatformDefaults, r: LauncherConfig)
    requires
        survives_round_trip(c, d),
        parsed_config(r, text_of_lines(config_lines(c)), d),
    ensures
        same_settings(r, c),
{
    lemma_written_entries(c, d);
    lemma_written_values(c);
    let e = written_entries(c);
    assert(text_entries(text_of_lines(config_lines(c))) == e);
    lemma_settings_keys(e, "Name"@, "username"@);
    lemma_settings_keys(e, "game_directory"@, "game_directory"@);
    lemma_settings_keys(e, "JavaPath"@, "java_path"@);
    lemma_settings_keys(e, "ChosenVer"@, "selected_version"@);
    lemma_settings_keys(e, "Ram"@, "memory_mb"@);
    lemma_settings_keys(e, "CustomParams"@, "extra_jvm_args"@);
    lemma_settings_keys(e, "extra_game_args"@, "extra_game_args"@);
    lemma_settings_keys(e, "DownloadMissingLibs"@, "download_missing_libraries"@);
    lemma_settings_keys(e, "DownloadAllFiles"@, "redownload_all_files"@);
    lemma_settings_keys(e, "VersionsType"@, "show_all_versions"@);
    lemma_settings_keys(e, "DownloadThreads"@, "download_threads"@);
    lemma_settings_keys(e, "AsyncDownload"@, "async_download"@);
    lemma_settings_keys(e, "UseCustomJava"@, "use_custom_java"@);
    lemma_settings_keys(e, "UseCustomParams"@, "use_custom_jvm_parameters"@);
    lemma_settings_keys(e, "SaveLaunchString"@, "save_launch_string"@);
    lemma_settings_keys(e, "KeepLauncherOpen"@, "keep_launcher_open"@);
    lemma_flag_keeps(c.async_download);
    lemma_flag_keeps(c.download_missing_libraries);
    lemma_flag_keeps(c.redownload_all_files);
    lemma_flag_keeps(c.show_all_versions);
    lemma_flag_keeps(c.save_launch_string);
    lemma_flag_keeps(c.use_custom_java);
    lemma_flag_keeps(c.use_custom_jvm_parameters);
    lemma_flag_keeps(c.keep_launcher_open);
    lemma_parse_decimal(c.download_threads as nat);
    if let Some(m) = c.memory_mb {
        lemma_parse_decimal(m as nat);
    }
    if c.extra_jvm_args@.len() > 0 {
        lemma_join_keeps(c.extra_jvm_args.deep_view());
    } else {
        assert(c.extra_jvm_args.deep_view() =~= Seq::<Seq<char>>::empty());
        assert(r.extra_jvm_args.deep_view() =~= Seq::<Seq<char>>::empty());
    }
    if c.extra_game_args@.len() > 0 {
        lemma_join_keeps(c.extra_game_args.deep_view());
    } else {
        assert(c.extra_game_args.deep_view() =~= Seq::<Seq<char>>::empty());
    }
}

} // verus!
