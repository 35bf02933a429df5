//! The Java command line that starts a Minecraft version: class path,
//! placeholder values, rule-guarded arguments and the offline player id.
use vstd::prelude::*;

use crate::download::asset_index_path;
use crate::launch::{command_line, command_to_string};
use crate::minecraft::{
    assets_index_spec, clone_opt, effective_spec, library_view, logging_config_path,
    logging_config_path_spec, push_str, push_strings, rules_allow, rules_apply_with_context, xmx_arg,
    ArgumentValue, ArgumentValueList, DownloadInfo, LaunchCommand, LaunchContext, LaunchProfile,
    Library, MinecraftVersionJson, assets_index_of,
};
use vstd::utf8::encode_utf8;
use crate::text::{
    chars_of, copy_chars, decimal, format_decimal, format_hex, hex_digits, join_chars,
    join_path, join_path_str, join_with, path_join, push_all, replace_all, replace_seq, split_words,
    string_of, views, words,
};

verus! {

/// The launcher name that launch arguments report.
pub const LAUNCHER_NAME: &'static str = "vortex-rust-launcher";

/// The launcher version that launch arguments report.
pub const LAUNCHER_VERSION: &'static str = "0.1.0";

/// One step of the offline player hash: xor in a byte, multiply by the
/// FNV prime, wrapping at 128 bits.
pub open spec fn fnv_step(h: u128, b: u8) -> u128 {
    (((h ^ (b as u128)) as nat * 0x100000001b3nat) % 0x1_0000_0000_0000_0000_0000_0000_0000_0000nat) as u128
}

/// The offline player hash of some bytes.
pub open spec fn fnv_hash(bytes: Seq<u8>) -> u128
    decreases bytes.len(),
{
    if bytes.len() == 0 {
        0xcbf29ce484222325u128
    } else {
        fnv_step(fnv_hash(bytes.drop_last()), bytes.last())
    }
}

/// The offline player id: the hash of the UTF-8 bytes of
/// `OfflinePlayer:<name>` as 32 lower-case hexadecimal digits.
pub open spec fn offline_uuid_spec(username: Seq<char>) -> Seq<char> {
    hex_digits(fnv_hash(encode_utf8("OfflinePlayer:"@ + username)) as nat, 32)
}

/// The bytes of a string in UTF-8.
fn utf8_bytes(s: &str) -> (b: &[u8])
    ensures
        b@ == encode_utf8(s@),
{
    s.as_bytes()
}

/// A stable offline player id derived from the player name.
pub fn offline_uuid(username: &str) -> (id: String)
    ensures
        id@ == offline_uuid_spec(username@),
{
    let mut text = chars_of("OfflinePlayer:");
    let u = chars_of(username);
    push_all(&mut text, u.as_slice());
    let joined = string_of(text.as_slice());
    let bytes = utf8_bytes(joined.as_str());
    let mut hash: u128 = 0xcbf29ce484222325;
    let mut i: usize = 0;
    assert(bytes@.take(0) =~= Seq::<u8>::empty());
    while i < bytes.len()
        invariant
            i <= bytes.len(),
            hash == fnv_hash(bytes@.take(i as int)),
        decreases bytes.len() - i,
    {
        assert(bytes@.take(i + 1).drop_last() =~= bytes@.take(i as int));
        assert(bytes@.take(i + 1).last() == bytes@[i as int]);
        hash = hash ^ (bytes[i] as u128);
        hash = hash.wrapping_mul(0x100000001b3);
        i += 1;
    }
    assert(bytes@.take(bytes.len() as int) =~= bytes@);
    let hex = format_hex(hash, 32);
    string_of(hex.as_slice())
}

/// `${key}`.
pub open spec fn placeholder(key: Seq<char>) -> Seq<char> {
    seq!['$', '{'] + key + seq!['}']
}

/// `v` with each placeholder replaced by its value, in the order of the
/// replacement list.
pub open spec fn apply_replacements(v: Seq<char>, repl: Seq<(Seq<char>, Seq<char>)>) -> Seq<char>
    decreases repl.len(),
{
    if repl.len() == 0 {
        v
    } else {
        replace_all(apply_replacements(v, repl.drop_last()), placeholder(repl.last().0), repl.last().1)
    }
}

/// The version id of a launch: the metadata's, else the profile's.
pub open spec fn launch_version_id(v: MinecraftVersionJson, p: LaunchProfile) -> Seq<char> {
    match v.id {
        Some(i) => i@,
        None => p.version_id@,
    }
}

/// The id of the jar a launch runs: the metadata's jar, else the version id.
pub open spec fn launch_jar_id(v: MinecraftVersionJson, p: LaunchProfile) -> Seq<char> {
    match v.jar {
        Some(j) => j@,
        None => launch_version_id(v, p),
    }
}

/// `<game>/versions/<jar>/<jar>.jar`.
pub open spec fn version_jar_path(game_dir: Seq<char>, jar: Seq<char>) -> Seq<char> {
    path_join(path_join(path_join(game_dir, "versions"@), jar), jar + ".jar"@)
}

/// `<game>/versions/<version>/natives`.
pub open spec fn natives_dir_path(game_dir: Seq<char>, version: Seq<char>) -> Seq<char> {
    path_join(path_join(path_join(game_dir, "versions"@), version), "natives"@)
}

/// The class-path separator of the machine the launcher runs on: `;` on a
/// Windows host, `:` elsewhere. It follows the host, not the OS that the
/// launch context names for the metadata's rules.
pub open spec fn classpath_sep(windows_host: bool) -> Seq<char> {
    if windows_host {
        seq![';']
    } else {
        seq![':']
    }
}

/// The class path: the allowed libraries' paths, then the version jar.
pub open spec fn classpath_spec(
    v: MinecraftVersionJson,
    p: LaunchProfile,
    ctx: LaunchContext,
    windows_host: bool,
) -> Seq<char> {
    let libs = effective_spec(v.libraries@, p.game_directory@, ctx);
    join_with(
        libs.map_values(|e: (Seq<char>, Seq<char>, Option<Seq<char>>)| e.1).push(
            version_jar_path(p.game_directory@, launch_jar_id(v, p)),
        ),
        classpath_sep(windows_host),
    )
}

/// The asset index a launch names: the metadata's, else the version id.
pub open spec fn launch_assets_index(v: MinecraftVersionJson, p: LaunchProfile) -> Seq<char> {
    match assets_index_spec(v) {
        Some(a) => a,
        None => launch_version_id(v, p),
    }
}

/// Placeholder values that sort before `path`.
pub open spec fn replacements_head(
    v: MinecraftVersionJson,
    p: LaunchProfile,
    ctx: LaunchContext,
    windows_host: bool,
) -> Seq<
    (Seq<char>, Seq<char>),
> {
    let g = p.game_directory@;
    seq![
        ("assets_index_name"@, launch_assets_index(v, p)),
        ("assets_root"@, path_join(g, "assets"@)),
        ("auth_access_token"@, "0"@),
        ("auth_player_name"@, p.username@),
        ("auth_uuid"@, offline_uuid_spec(p.username@)),
        ("classpath"@, classpath_spec(v, p, ctx, windows_host)),
        ("classpath_separator"@, classpath_sep(windows_host)),
        ("game_directory"@, g),
        ("launcher_name"@, LAUNCHER_NAME@),
        ("launcher_version"@, LAUNCHER_VERSION@),
        ("library_directory"@, path_join(g, "libraries"@)),
        ("natives_directory"@, natives_dir_path(g, launch_version_id(v, p))),
    ]
}

/// Placeholder values that sort after `path`.
pub open spec fn replacements_tail(v: MinecraftVersionJson, p: LaunchProfile, ctx: LaunchContext) -> Seq<
    (Seq<char>, Seq<char>),
> {
    (match ctx.resolution {
        Some((w, h)) => seq![
            ("resolution_height"@, decimal(h as nat)),
            ("resolution_width"@, decimal(w as nat)),
        ],
        None => Seq::empty(),
    }) + seq![
        ("user_properties"@, "{}"@),
        ("user_property_map"@, "{}"@),
        ("user_type"@, "legacy"@),
        ("version_name"@, launch_version_id(v, p)),
        ("version_type"@, "release"@),
    ]
}

/// The logging configuration file of a version.
pub open spec fn logging_file(v: MinecraftVersionJson) -> Option<DownloadInfo> {
    match v.logging {
        Some(l) => match l.client {
            Some(c) => c.file,
            None => None,
        },
        None => None,
    }
}

/// The logging argument of a version.
pub open spec fn logging_argument(v: MinecraftVersionJson) -> Option<Seq<char>> {
    match v.logging {
        Some(l) => match l.client {
            Some(c) => c.argument.deep_view(),
            None => None,
        },
        None => None,
    }
}

/// Placeholder values for JVM arguments, in key order.
pub open spec fn jvm_replacements(
    v: MinecraftVersionJson,
    p: LaunchProfile,
    ctx: LaunchContext,
    windows_host: bool,
) -> Seq<
    (Seq<char>, Seq<char>),
> {
    replacements_head(v, p, ctx, windows_host) + replacements_tail(v, p, ctx)
}

/// Placeholder values for the logging and game arguments: the JVM ones
/// plus `path`, the logging configuration, when the version has one.
pub open spec fn game_replacements(
    v: MinecraftVersionJson,
    p: LaunchProfile,
    ctx: LaunchContext,
    windows_host: bool,
) -> Seq<
    (Seq<char>, Seq<char>),
> {
    match logging_file(v) {
        Some(f) => replacements_head(v, p, ctx, windows_host) + seq![
            ("path"@, logging_config_path_spec(p.game_directory@, f)),
        ] + replacements_tail(v, p, ctx),
        None => jvm_replacements(v, p, ctx, windows_host),
    }
}

/// The arguments of one argument entry: nothing when its rules disallow
/// it, else its values with placeholders replaced.
pub open spec fn expand_value(a: ArgumentValue, repl: Seq<(Seq<char>, Seq<char>)>, ctx: LaunchContext) -> Seq<
    Seq<char>,
> {
    match a {
        ArgumentValue::String(s) => seq![apply_replacements(s@, repl)],
        ArgumentValue::Ruled { rules, value } => if rules_allow(rules@, ctx) {
            match value {
                ArgumentValueList::One(s) => seq![apply_replacements(s@, repl)],
                ArgumentValueList::Many(vs) => vs.deep_view().map_values(
                    |x: Seq<char>| apply_replacements(x, repl),
                ),
            }
        } else {
            Seq::empty()
        },
    }
}

/// The arguments of argument entries, in order.
pub open spec fn expand_spec(vals: Seq<ArgumentValue>, repl: Seq<(Seq<char>, Seq<char>)>, ctx: LaunchContext) -> Seq<
    Seq<char>,
>
    decreases vals.len(),
{
    if vals.len() == 0 {
        Seq::empty()
    } else {
        expand_spec(vals.drop_last(), repl, ctx) + expand_value(vals.last(), repl, ctx)
    }
}

/// The JVM arguments that the metadata gives: its modern `jvm` list, or the
/// classic library path and class path arguments.
pub open spec fn metadata_jvm_args(
    v: MinecraftVersionJson,
    p: LaunchProfile,
    ctx: LaunchContext,
    windows_host: bool,
) -> Seq<
    Seq<char>,
> {
    let r = jvm_replacements(v, p, ctx, windows_host);
    match v.arguments {
        Some(a) => expand_spec(a.jvm@, r, ctx),
        None => seq![
            apply_replacements("-Djava.library.path=${natives_directory}"@, r),
            apply_replacements("-cp"@, r),
            apply_replacements("${classpath}"@, r),
        ],
    }
}

/// The game arguments that the metadata gives: its modern `game` list, or
/// the words of its legacy argument string.
pub open spec fn metadata_game_args(
    v: MinecraftVersionJson,
    p: LaunchProfile,
    ctx: LaunchContext,
    windows_host: bool,
) -> Seq<
    Seq<char>,
> {
    let r = game_replacements(v, p, ctx, windows_host);
    match v.arguments {
        Some(a) => expand_spec(a.game@, r, ctx),
        None => match v.minecraft_arguments {
            Some(l) => words(l@).map_values(|x: Seq<char>| apply_replacements(x, r)),
            None => Seq::empty(),
        },
    }
}

/// The main class, when the metadata names a non-empty one.
pub open spec fn main_class_args(v: MinecraftVersionJson) -> Seq<Seq<char>> {
    match v.main_class {
        Some(m) => if m@.len() > 0 {
            seq![m@]
        } else {
            Seq::empty()
        },
        None => Seq::empty(),
    }
}

/// The arguments of the Java command for a version: heap size, the
/// profile's JVM arguments, the metadata's JVM arguments, the logging
/// argument, the main class, the metadata's game arguments and the
/// profile's game arguments.
pub open spec fn launch_args_spec(
    v: MinecraftVersionJson,
    p: LaunchProfile,
    ctx: LaunchContext,
    windows_host: bool,
) -> Seq<
    Seq<char>,
> {
    seq![xmx_arg(p.memory_mb)] + p.jvm_args.deep_view() + metadata_jvm_args(v, p, ctx, windows_host) + (match logging_argument(
        v,
    ) {
        Some(a) => seq![apply_replacements(a, game_replacements(v, p, ctx, windows_host))],
        None => Seq::empty(),
    }) + main_class_args(v) + metadata_game_args(v, p, ctx, windows_host) + p.game_args.deep_view()
}

/// Text without a `$`, in which no placeholder can occur.
pub open spec fn no_dollar(s: Seq<char>) -> bool {
    forall|i: int| 0 <= i < s.len() ==> #[trigger] s[i] != '$'
}

proof fn lemma_replace_without_dollar(s: Seq<char>, key: Seq<char>, rep: Seq<char>)
    requires
        no_dollar(s),
    ensures
        replace_all(s, placeholder(key), rep) == s,
    decreases s.len(),
{
    let pat = placeholder(key);
    assert(pat[0] == '$');
    if !(pat.len() == 0 || s.len() < pat.len()) {
        assert(s.take(pat.len() as int)[0] == s[0]);
        assert(s.take(pat.len() as int) != pat);
        assert forall|i: int| 0 <= i < s.drop_first().len() implies #[trigger] s.drop_first()[i] != '$' by {
            assert(s.drop_first()[i] == s[i + 1]);
        }
        lemma_replace_without_dollar(s.drop_first(), key, rep);
        assert(seq![s[0]] + s.drop_first() =~= s);
    }
}

proof fn lemma_apply_stable(v: Seq<char>, repl: Seq<(Seq<char>, Seq<char>)>, k: int, n: int)
    requires
        0 <= k <= n <= repl.len(),
        no_dollar(apply_replacements(v, repl.take(k))),
    ensures
        apply_replacements(v, repl.take(n)) == apply_replacements(v, repl.take(k)),
    decreases n - k,
{
    if n > k {
        lemma_apply_stable(v, repl, k, n - 1);
        assert(repl.take(n).drop_last() =~= repl.take(n - 1));
        assert(repl.take(n).last() == repl[n - 1]);
        lemma_replace_without_dollar(apply_replacements(v, repl.take(n - 1)), repl[n - 1].0, repl[n - 1].1);
    }
}

proof fn lemma_join_keeps_base(base: Seq<char>, part: Seq<char>)
    requires
        base.len() > 0,
        part.len() == 0 || part[0] != '/',
    ensures
        path_join(base, part).len() >= base.len(),
        path_join(base, part).take(base.len() as int) == base,
        no_dollar(base) && no_dollar(part) ==> no_dollar(path_join(base, part)),
{
    let j = path_join(base, part);
    if base.last() == '/' {
        assert(j =~= base + part);
        assert(j.take(base.len() as int) =~= base);
        if no_dollar(base) && no_dollar(part) {
            assert forall|i: int| 0 <= i < j.len() implies #[trigger] j[i] != '$' by {
                if i >= base.len() {
                    assert(j[i] == part[i - base.len()]);
                }
            }
        }
    } else {
        assert(j =~= base + seq!['/'] + part);
        assert(j.take(base.len() as int) =~= base);
        if no_dollar(base) && no_dollar(part) {
            assert forall|i: int| 0 <= i < j.len() implies #[trigger] j[i] != '$' by {
                if i > base.len() {
                    assert(j[i] == part[i - base.len() - 1]);
                }
            }
        }
    }
}

/// Law: in the launch arguments, `${assets_root}` stands for
/// `<game>/assets`, the directory that asset downloads fill: it is the
/// value in both the JVM and the game argument replacements (for a game
/// directory without `$`, which no later placeholder then touches), a
/// plain `${assets_root}` argument expands to it, and the asset index of
/// a version lies under it.
pub proof fn lemma_assets_root_is_the_assets_directory(
    v: MinecraftVersionJson,
    p: LaunchProfile,
    ctx: LaunchContext,
    windows_host: bool,
    index_id: Seq<char>,
)
    requires
        no_dollar(p.game_directory@),
    ensures
        apply_replacements("${assets_root}"@, jvm_replacements(v, p, ctx, windows_host)) == path_join(
            p.game_directory@,
            "assets"@,
        ),
        apply_replacements("${assets_root}"@, game_replacements(v, p, ctx, windows_host)) == path_join(
            p.game_directory@,
            "assets"@,
        ),
        forall|s: String|
            s@ == "${assets_root}"@ ==> #[trigger] expand_value(
                ArgumentValue::String(s),
                game_replacements(v, p, ctx, windows_host),
                ctx,
            ) == seq![path_join(p.game_directory@, "assets"@)],
        !(index_id.len() > 0 && index_id[0] == '/') ==> asset_index_path(p.game_directory@, index_id).take(
            path_join(p.game_directory@, "assets"@).len() as int,
        ) == path_join(p.game_directory@, "assets"@),
{
    reveal_strlit("${assets_root}");
    reveal_strlit("assets_root");
    reveal_strlit("assets_index_name");
    reveal_strlit("assets");
    reveal_strlit("indexes");
    reveal_strlit(".json");
    let g = p.game_directory@;
    let root = path_join(g, "assets"@);
    let v0 = "${assets_root}"@;
    assert(no_dollar("assets"@)) by {
        assert forall|i: int| 0 <= i < "assets"@.len() implies #[trigger] "assets"@[i] != '$' by {
            assert("assets"@[i] == 'a' || "assets"@[i] == 's' || "assets"@[i] == 'e' || "assets"@[i] == 't');
        }
    }
    assert(no_dollar(root)) by {
        if g.len() == 0 {
            assert(root == "assets"@);
        } else {
            lemma_join_keeps_base(g, "assets"@);
        }
    }
    assert(placeholder("assets_root"@) =~= v0);
    assert(placeholder("assets_index_name"@).len() == 20);
    let head = replacements_head(v, p, ctx, windows_host);
    assert(head[0].0 == "assets_index_name"@);
    assert(head[1] == ("assets_root"@, root));
    let lists = seq![jvm_replacements(v, p, ctx, windows_host), game_replacements(v, p, ctx, windows_host)];
    assert forall|j: int| 0 <= j < 2 implies apply_replacements(v0, #[trigger] lists[j]) == root by {
        let repl = lists[j];
        assert(repl.len() >= 2);
        assert(repl[0] == head[0]);
        assert(repl[1] == head[1]);
        let t0 = repl.take(0);
        let t1 = repl.take(1);
        let t2 = repl.take(2);
        assert(t1.drop_last() =~= t0);
        assert(t2.drop_last() =~= t1);
        assert(t1.last() == head[0]);
        assert(t2.last() == head[1]);
        assert(apply_replacements(v0, t0) == v0);
        assert(apply_replacements(v0, t1) == v0);
        assert(v0.take(v0.len() as int) =~= v0);
        assert(v0.skip(v0.len() as int) =~= Seq::<char>::empty());
        assert(apply_replacements(v0, t2) == root + replace_all(Seq::<char>::empty(), v0, root));
        assert(root + Seq::<char>::empty() =~= root);
        assert(apply_replacements(v0, t2) == root);
        lemma_apply_stable(v0, repl, 2, repl.len() as int);
        assert(repl.take(repl.len() as int) =~= repl);
    }
    assert(apply_replacements(v0, lists[0]) == root);
    assert(apply_replacements(v0, lists[1]) == root);
    if !(index_id.len() > 0 && index_id[0] == '/') {
        let a = root;
        assert(a.len() > 0);
        lemma_join_keeps_base(a, "indexes"@);
        let b = path_join(a, "indexes"@);
        lemma_join_keeps_base(b, index_id + ".json"@);
        assert(asset_index_path(g, index_id) == path_join(b, index_id + ".json"@));
        assert(path_join(b, index_id + ".json"@).take(a.len() as int) =~= b.take(a.len() as int));
    }
}

/// The Java executable of a launch: the profile's, else the one found for
/// the required Java version, else `java` from the path.
pub open spec fn launch_java(p: LaunchProfile, found_java: Option<String>) -> Seq<char> {
    match p.java_path {
        Some(j) => j@,
        None => match found_java {
            Some(f) => f@,
            None => "java"@,
        },
    }
}

/// The launch command of a version for a profile.
pub open spec fn is_launch_command(
    c: LaunchCommand,
    v: MinecraftVersionJson,
    p: LaunchProfile,
    save_launch_string: bool,
    ctx: LaunchContext,
    found_java: Option<String>,
    windows_host: bool,
) -> bool {
    &&& c.executable@ == launch_java(p, found_java)
    &&& c.args.deep_view() == launch_args_spec(v, p, ctx, windows_host)
    &&& c.working_directory@ == p.game_directory@
    &&& c.launch_string.deep_view() == (if save_launch_string {
        Some(command_line(launch_java(p, found_java), launch_args_spec(v, p, ctx, windows_host)))
    } else {
        None
    })
}

/// Replacement pairs as character sequences.
pub open spec fn repl_view(r: Seq<(Vec<char>, Vec<char>)>) -> Seq<(Seq<char>, Seq<char>)> {
    r.map_values(|p: (Vec<char>, Vec<char>)| (p.0@, p.1@))
}

/// Replaces every placeholder in `v`.
fn replace_placeholders(v: &[char], repl: &Vec<(Vec<char>, Vec<char>)>) -> (out: Vec<char>)
    ensures
        out@ == apply_replacements(v@, repl_view(repl@)),
{
    let ghost rv = repl_view(repl@);
    let mut out = copy_chars(v);
    let mut i: usize = 0;
    assert(rv.take(0) =~= Seq::<(Seq<char>, Seq<char>)>::empty());
    while i < repl.len()
        invariant
            i <= repl.len(),
            rv == repl_view(repl@),
            out@ == apply_replacements(v@, rv.take(i as int)),
        decreases repl.len() - i,
    {
        assert(rv.take(i + 1).drop_last() =~= rv.take(i as int));
        assert(rv.take(i + 1).last() == (repl@[i as int].0@, repl@[i as int].1@));
        let mut pat: Vec<char> = Vec::new();
        pat.push('$');
        pat.push('{');
        push_all(&mut pat, repl[i].0.as_slice());
        pat.push('}');
        assert(pat@ =~= placeholder(repl@[i as int].0@));
        out = replace_seq(out.as_slice(), pat.as_slice(), repl[i].1.as_slice());
        i += 1;
    }
    assert(rv.take(repl.len() as int) =~= rv);
    out
}

/// Adds a replacement pair.
fn push_repl(repl: &mut Vec<(Vec<char>, Vec<char>)>, key: &str, value: Vec<char>)
    ensures
        repl_view(final(repl)@) == repl_view(old(repl)@).push((key@, value@)),
{
    let ghost prev = repl_view(repl@);
    let k = chars_of(key);
    let ghost vv = value@;
    repl.push((k, value));
    assert(repl_view(repl@) =~= prev.push((key@, vv)));
}

/// Expands argument entries with placeholder values.
fn expand_arguments(
    values: &Vec<ArgumentValue>,
    repl: &Vec<(Vec<char>, Vec<char>)>,
    context: &LaunchContext,
) -> (out: Vec<String>)
    ensures
        out.deep_view() == expand_spec(values@, repl_view(repl@), *context),
{
    let ghost rv = repl_view(repl@);
    let mut out: Vec<String> = Vec::new();
    let mut i: usize = 0;
    assert(values@.take(0) =~= Seq::<ArgumentValue>::empty());
    assert(out.deep_view() =~= Seq::<Seq<char>>::empty());
    while i < values.len()
        invariant
            i <= values.len(),
            rv == repl_view(repl@),
            out.deep_view() == expand_spec(values@.take(i as int), rv, *context),
        decreases values.len() - i,
    {
        assert(values@.take(i + 1).drop_last() =~= values@.take(i as int));
        assert(values@.take(i + 1).last() == values@[i as int]);
        let ghost before = out.deep_view();
        match &values[i] {
            ArgumentValue::String(s) => {
                let c = chars_of(s.as_str());
                let r = replace_placeholders(c.as_slice(), repl);
                push_str(&mut out, string_of(r.as_slice()));
                assert(out.deep_view() =~= before + expand_value(values@[i as int], rv, *context));
            },
            ArgumentValue::Ruled { rules, value } => {
                if rules_apply_with_context(rules, context) {
                    match value {
                        ArgumentValueList::One(s) => {
                            let c = chars_of(s.as_str());
                            let r = replace_placeholders(c.as_slice(), repl);
                            push_str(&mut out, string_of(r.as_slice()));
                            assert(out.deep_view() =~= before + expand_value(values@[i as int], rv, *context));
                        },
                        ArgumentValueList::Many(vs) => {
                            let ghost target = vs.deep_view().map_values(
                                |x: Seq<char>| apply_replacements(x, rv),
                            );
                            let mut k: usize = 0;
                            while k < vs.len()
                                invariant
                                    k <= vs.len(),
                                    rv == repl_view(repl@),
                                    target == vs.deep_view().map_values(
                                        |x: Seq<char>| apply_replacements(x, rv),
                                    ),
                                    out.deep_view() == before + target.take(k as int),
                                decreases vs.len() - k,
                            {
                                let c = chars_of(vs[k].as_str());
                                let r = replace_placeholders(c.as_slice(), repl);
                                assert(vs.deep_view()[k as int] == vs@[k as int]@);
                                push_str(&mut out, string_of(r.as_slice()));
                                assert(out.deep_view() =~= before + target.take(k + 1));
                                k += 1;
                            }
                            assert(target.take(vs.len() as int) =~= target);
                            assert(out.deep_view() =~= before + expand_value(values@[i as int], rv, *context));
                        },
                    }
                } else {
                    assert(out.deep_view() =~= before + expand_value(values@[i as int], rv, *context));
                }
            },
        }
        i += 1;
    }
    assert(values@.take(values.len() as int) =~= values@);
    out
}

pub(crate) fn version_id_of(v: &MinecraftVersionJson, p: &LaunchProfile) -> (out: Vec<char>)
    ensures
        out@ == launch_version_id(*v, *p),
{
    match &v.id {
        Some(i) => chars_of(i.as_str()),
        None => chars_of(p.version_id.as_str()),
    }
}

fn jar_id_of(v: &MinecraftVersionJson, p: &LaunchProfile) -> (out: Vec<char>)
    ensures
        out@ == launch_jar_id(*v, *p),
{
    match &v.jar {
        Some(j) => chars_of(j.as_str()),
        None => version_id_of(v, p),
    }
}

fn version_jar(game_dir: &[char], jar: &[char]) -> (out: Vec<char>)
    ensures
        out@ == version_jar_path(game_dir@, jar@),
{
    let a = join_path_str(game_dir, "versions");
    let b = join_path(a.as_slice(), jar);
    let mut file = copy_chars(jar);
    let ext = chars_of(".jar");
    push_all(&mut file, ext.as_slice());
    join_path(b.as_slice(), file.as_slice())
}

pub(crate) fn natives_dir(game_dir: &[char], version: &[char]) -> (out: Vec<char>)
    ensures
        out@ == natives_dir_path(game_dir@, version@),
{
    let a = join_path_str(game_dir, "versions");
    let b = join_path(a.as_slice(), version);
    join_path_str(b.as_slice(), "natives")
}

fn classpath_separator(windows_host: bool) -> (out: Vec<char>)
    ensures
        out@ == classpath_sep(windows_host),
{
    let mut out: Vec<char> = Vec::new();
    if windows_host {
        out.push(';');
    } else {
        out.push(':');
    }
    assert(out@ =~= classpath_sep(windows_host));
    out
}

fn build_classpath(
    v: &MinecraftVersionJson,
    p: &LaunchProfile,
    context: &LaunchContext,
    windows_host: bool,
) -> (out: Vec<char>)
    ensures
        out@ == classpath_spec(*v, *p, *context, windows_host),
{
    let libs = v.effective_libraries_with_context(p.game_directory.as_str(), context);
    let ghost spec_libs = effective_spec(v.libraries@, p.game_directory@, *context);
    let ghost lib_paths = spec_libs.map_values(|e: (Seq<char>, Seq<char>, Option<Seq<char>>)| e.1);
    let mut paths: Vec<Vec<char>> = Vec::new();
    let mut i: usize = 0;
    assert(views(paths@) =~= lib_paths.take(0));
    while i < libs.len()
        invariant
            i <= libs.len(),
            libs@.map_values(|l: Library| library_view(l)) == spec_libs,
            lib_paths == spec_libs.map_values(|e: (Seq<char>, Seq<char>, Option<Seq<char>>)| e.1),
            views(paths@) == lib_paths.take(i as int),
        decreases libs.len() - i,
    {
        let ghost prev = views(paths@);
        let c = chars_of(libs[i].path.as_str());
        assert(spec_libs[i as int] == library_view(libs@[i as int]));
        assert(lib_paths[i as int] == c@);
        let ghost cv = c@;
        paths.push(c);
        assert(views(paths@) =~= prev.push(cv));
        assert(views(paths@) =~= lib_paths.take(i + 1));
        i += 1;
    }
    assert(lib_paths.take(libs.len() as int) =~= lib_paths);
    let g = chars_of(p.game_directory.as_str());
    let jar = jar_id_of(v, p);
    let ghost prev = views(paths@);
    let vj = version_jar(g.as_slice(), jar.as_slice());
    paths.push(vj);
    assert(views(paths@) =~= prev.push(version_jar_path(p.game_directory@, launch_jar_id(*v, *p))));
    let sep = classpath_separator(windows_host);
    join_chars(&paths, sep.as_slice())
}

fn replacement_head(
    v: &MinecraftVersionJson,
    p: &LaunchProfile,
    context: &LaunchContext,
    windows_host: bool,
) -> (repl: Vec<
    (Vec<char>, Vec<char>),
>)
    ensures
        repl_view(repl@) == replacements_head(*v, *p, *context, windows_host),
{
    let g = chars_of(p.game_directory.as_str());
    let vid = version_id_of(v, p);
    let assets_index = match assets_index_of(v) {
        Some(a) => chars_of(a.as_str()),
        None => copy_chars(vid.as_slice()),
    };
    let mut repl: Vec<(Vec<char>, Vec<char>)> = Vec::new();
    assert(repl_view(repl@) =~= Seq::<(Seq<char>, Seq<char>)>::empty());
    push_repl(&mut repl, "assets_index_name", assets_index);
    push_repl(&mut repl, "assets_root", join_path_str(g.as_slice(), "assets"));
    push_repl(&mut repl, "auth_access_token", chars_of("0"));
    push_repl(&mut repl, "auth_player_name", chars_of(p.username.as_str()));
    let uuid = offline_uuid(p.username.as_str());
    push_repl(&mut repl, "auth_uuid", chars_of(uuid.as_str()));
    push_repl(&mut repl, "classpath", build_classpath(v, p, context, windows_host));
    push_repl(&mut repl, "classpath_separator", classpath_separator(windows_host));
    push_repl(&mut repl, "game_directory", copy_chars(g.as_slice()));
    push_repl(&mut repl, "launcher_name", chars_of(LAUNCHER_NAME));
    push_repl(&mut repl, "launcher_version", chars_of(LAUNCHER_VERSION));
    push_repl(&mut repl, "library_directory", join_path_str(g.as_slice(), "libraries"));
    push_repl(&mut repl, "natives_directory", natives_dir(g.as_slice(), vid.as_slice()));
    assert(repl_view(repl@) =~= replacements_head(*v, *p, *context, windows_host));
    repl
}

fn replacement_tail(v: &MinecraftVersionJson, p: &LaunchProfile, context: &LaunchContext) -> (repl: Vec<
    (Vec<char>, Vec<char>),
>)
    ensures
        repl_view(repl@) == replacements_tail(*v, *p, *context),
{
    let vid = version_id_of(v, p);
    let mut repl: Vec<(Vec<char>, Vec<char>)> = Vec::new();
    assert(repl_view(repl@) =~= Seq::<(Seq<char>, Seq<char>)>::empty());
    match context.resolution {
        Some((w, h)) => {
            push_repl(&mut repl, "resolution_height", format_decimal(h as u64));
            push_repl(&mut repl, "resolution_width", format_decimal(w as u64));
        },
        None => {},
    }
    push_repl(&mut repl, "user_properties", chars_of("{}"));
    push_repl(&mut repl, "user_property_map", chars_of("{}"));
    push_repl(&mut repl, "user_type", chars_of("legacy"));
    push_repl(&mut repl, "version_name", vid);
    push_repl(&mut repl, "version_type", chars_of("release"));
    assert(repl_view(repl@) =~= replacements_tail(*v, *p, *context));
    repl
}

/// Concatenates replacement lists.
fn concat_repl(a: &Vec<(Vec<char>, Vec<char>)>, b: &Vec<(Vec<char>, Vec<char>)>) -> (out: Vec<
    (Vec<char>, Vec<char>),
>)
    ensures
        repl_view(out@) == repl_view(a@) + repl_view(b@),
{
    let mut out: Vec<(Vec<char>, Vec<char>)> = Vec::new();
    let mut i: usize = 0;
    assert(repl_view(out@) =~= repl_view(a@).take(0));
    while i < a.len()
        invariant
            i <= a.len(),
            repl_view(out@) == repl_view(a@).take(i as int),
        decreases a.len() - i,
    {
        let ghost prev = repl_view(out@);
        let pair = (copy_chars(a[i].0.as_slice()), copy_chars(a[i].1.as_slice()));
        assert(repl_view(a@)[i as int] == (pair.0@, pair.1@));
        let ghost pv = (pair.0@, pair.1@);
        out.push(pair);
        assert(repl_view(out@) =~= prev.push(pv));
        assert(repl_view(out@) =~= repl_view(a@).take(i + 1));
        i += 1;
    }
    assert(repl_view(a@).take(a.len() as int) =~= repl_view(a@));
    let mut k: usize = 0;
    let ghost base = repl_view(out@);
    assert(repl_view(out@) =~= base + repl_view(b@).take(0));
    while k < b.len()
        invariant
            k <= b.len(),
            base == repl_view(a@),
            repl_view(out@) == base + repl_view(b@).take(k as int),
        decreases b.len() - k,
    {
        let ghost prev = repl_view(out@);
        let pair = (copy_chars(b[k].0.as_slice()), copy_chars(b[k].1.as_slice()));
        assert(repl_view(b@)[k as int] == (pair.0@, pair.1@));
        let ghost pv = (pair.0@, pair.1@);
        out.push(pair);
        assert(repl_view(out@) =~= prev.push(pv));
        assert(repl_view(out@) =~= base + repl_view(b@).take(k + 1));
        k += 1;
    }
    assert(repl_view(b@).take(b.len() as int) =~= repl_view(b@));
    out
}

fn metadata_jvm(v: &MinecraftVersionJson, repl: &Vec<(Vec<char>, Vec<char>)>, context: &LaunchContext) -> (out: Vec<
    String,
>)
    ensures
        v.arguments is Some ==> out.deep_view() == expand_spec(v.arguments->0.jvm@, repl_view(repl@), *context),
        v.arguments is None ==> out.deep_view() == seq![
            apply_replacements("-Djava.library.path=${natives_directory}"@, repl_view(repl@)),
            apply_replacements("-cp"@, repl_view(repl@)),
            apply_replacements("${classpath}"@, repl_view(repl@)),
        ],
{
    match &v.arguments {
        Some(a) => expand_arguments(&a.jvm, repl, context),
        None => {
            let mut out: Vec<String> = Vec::new();
            let a = chars_of("-Djava.library.path=${natives_directory}");
            push_str(&mut out, string_of(replace_placeholders(a.as_slice(), repl).as_slice()));
            let b = chars_of("-cp");
            push_str(&mut out, string_of(replace_placeholders(b.as_slice(), repl).as_slice()));
            let c = chars_of("${classpath}");
            push_str(&mut out, string_of(replace_placeholders(c.as_slice(), repl).as_slice()));
            assert(out.deep_view() =~= seq![
                apply_replacements("-Djava.library.path=${natives_directory}"@, repl_view(repl@)),
                apply_replacements("-cp"@, repl_view(repl@)),
                apply_replacements("${classpath}"@, repl_view(repl@)),
            ]);
            out
        },
    }
}

fn metadata_game(v: &MinecraftVersionJson, repl: &Vec<(Vec<char>, Vec<char>)>, context: &LaunchContext) -> (out: Vec<
    String,
>)
    ensures
        out.deep_view() == (match v.arguments {
            Some(a) => expand_spec(a.game@, repl_view(repl@), *context),
            None => match v.minecraft_arguments {
                Some(l) => words(l@).map_values(|x: Seq<char>| apply_replacements(x, repl_view(repl@))),
                None => Seq::empty(),
            },
        }),
{
    match &v.arguments {
        Some(a) => expand_arguments(&a.game, repl, context),
        None => match &v.minecraft_arguments {
            Some(l) => {
                let c = chars_of(l.as_str());
                let ws = split_words(c.as_slice());
                let ghost wv = views(ws@);
                let ghost target = wv.map_values(|x: Seq<char>| apply_replacements(x, repl_view(repl@)));
                let mut out: Vec<String> = Vec::new();
                let mut i: usize = 0;
                assert(out.deep_view() =~= target.take(0));
                while i < ws.len()
                    invariant
                        i <= ws.len(),
                        wv == views(ws@),
                        target == wv.map_values(|x: Seq<char>| apply_replacements(x, repl_view(repl@))),
                        out.deep_view() == target.take(i as int),
                    decreases ws.len() - i,
                {
                    let r = replace_placeholders(ws[i].as_slice(), repl);
                    assert(target[i as int] == r@);
                    push_str(&mut out, string_of(r.as_slice()));
                    assert(out.deep_view() =~= target.take(i + 1));
                    i += 1;
                }
                assert(target.take(ws.len() as int) =~= target);
                out
            },
            None => {
                let out: Vec<String> = Vec::new();
                assert(out.deep_view() =~= Seq::<Seq<char>>::empty());
                out
            },
        },
    }
}

fn logging_argument_of(v: &MinecraftVersionJson) -> (r: Option<String>)
    ensures
        r.deep_view() == logging_argument(*v),
{
    match &v.logging {
        Some(l) => match &l.client {
            Some(c) => clone_opt(&c.argument),
            None => None,
        },
        None => None,
    }
}

impl MinecraftVersionJson {
    /// The Java command that starts this (resolved) version for a profile
    /// in a launch context. `found_java` is the Java installation found for
    /// `required_java_major()`, used when the profile names none;
    /// `windows_host` tells whether the launcher runs on Windows, which
    /// decides the class-path separator. Placeholders
    /// `${...}` in the metadata's arguments are replaced by the launch's
    /// values; the printable command line is kept when asked for.
    pub fn build_launch_command_with_context(
        &self,
        profile: &LaunchProfile,
        save_launch_string: bool,
        context: &LaunchContext,
        found_java: Option<String>,
        windows_host: bool,
    ) -> (c: LaunchCommand)
        ensures
            is_launch_command(c, *self, *profile, save_launch_string, *context, found_java, windows_host),
    {
        let java: String = match &profile.java_path {
            Some(j) => j.clone(),
            None => match &found_java {
                Some(f) => f.clone(),
                None => String::from_str("java"),
            },
        };
        let head = replacement_head(self, profile, context, windows_host);
        let tail = replacement_tail(self, profile, context);
        let jvm_repl = concat_repl(&head, &tail);
        let game_repl = match &self.logging {
            Some(l) if l.client.is_some() && l.client.as_ref().unwrap().file.is_some() => {
                let file = l.client.as_ref().unwrap().file.as_ref().unwrap();
                let empty: Vec<(Vec<char>, Vec<char>)> = Vec::new();
                assert(repl_view(empty@) =~= Seq::<(Seq<char>, Seq<char>)>::empty());
                let mut with_path = concat_repl(&head, &empty);
                assert(repl_view(with_path@) =~= repl_view(head@));
                let lp = logging_config_path(profile.game_directory.as_str(), file);
                push_repl(&mut with_path, "path", chars_of(lp.as_str()));
                let r = concat_repl(&with_path, &tail);
                r
            },
            _ => concat_repl(&head, &tail),
        };
        assert(repl_view(jvm_repl@) == jvm_replacements(*self, *profile, *context, windows_host));
        assert(repl_view(game_repl@) =~= game_replacements(*self, *profile, *context, windows_host));
        let mut args: Vec<String> = Vec::new();
        push_str(&mut args, crate::minecraft::xmx(profile.memory_mb));
        push_strings(&mut args, &profile.jvm_args);
        let ghost a1 = args.deep_view();
        let jvm = metadata_jvm(self, &jvm_repl, context);
        push_strings(&mut args, &jvm);
        assert(jvm.deep_view() == metadata_jvm_args(*self, *profile, *context, windows_host));
        let ghost a2 = args.deep_view();
        match logging_argument_of(self) {
            Some(a) => {
                let c = chars_of(a.as_str());
                let r = replace_placeholders(c.as_slice(), &game_repl);
                push_str(&mut args, string_of(r.as_slice()));
            },
            None => {},
        }
        let ghost a3 = args.deep_view();
        match &self.main_class {
            Some(m) => {
                if m.as_str().is_empty() == false {
                    push_str(&mut args, m.clone());
                }
            },
            None => {},
        }
        let ghost a4 = args.deep_view();
        assert(a4 =~= a3 + main_class_args(*self));
        let game = metadata_game(self, &game_repl, context);
        push_strings(&mut args, &game);
        assert(game.deep_view() == metadata_game_args(*self, *profile, *context, windows_host));
        push_strings(&mut args, &profile.game_args);
        assert(args.deep_view() =~= launch_args_spec(*self, *profile, *context, windows_host));
        let launch_string = if save_launch_string {
            Some(command_to_string(java.as_str(), &args))
        } else {
            None
        };
        LaunchCommand {
            executable: java,
            args,
            working_directory: profile.game_directory.clone(),
            launch_string,
        }
    }
}

} // verus!
