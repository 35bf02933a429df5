//! Mojang version metadata: rules, inherited profiles, libraries, Java
//! requirements and the Java command that starts the game.
use vstd::prelude::*;

use crate::config::LauncherConfig;
use crate::text::{
    byte_prefix, chars_eq, chars_of, chars_utf8_len, push_all, replace_char, replace_char_spec,
    split_chars, split_spec, string_of, take_bytes, utf8_len, views, contains_chars, contains_seq,
    replace_all, replace_seq, join_path, join_path_str, path_join, copy_chars, parse_decimal,
    parse_unsigned, decimal, format_decimal, split_acc,
};
use crate::config_roundtrip::lemma_decimal_reads_back;

verus! {

/// What a launch command needs from resolved version metadata.
#[derive(Debug, Clone, PartialEq, Eq)]
pub struct VersionMetadata {
    pub id: String,
    pub main_class: Option<String>,
    pub libraries: Vec<Library>,
    pub assets_index: Option<String>,
}

/// A library on the class path.
#[derive(Debug, Clone, PartialEq, Eq)]
pub struct Library {
    pub name: String,
    pub path: String,
    pub url: Option<String>,
}

/// The player and installation a launch is for.
#[derive(Debug, Clone, PartialEq, Eq)]
pub struct LaunchProfile {
    pub username: String,
    pub version_id: String,
    pub game_directory: String,
    pub java_path: Option<String>,
    pub memory_mb: u32,
    pub jvm_args: Vec<String>,
    pub game_args: Vec<String>,
}

/// A process to start: executable, arguments and working directory, with
/// the printable command line when it was asked for.
#[derive(Debug, Clone, PartialEq, Eq)]
pub struct LaunchCommand {
    pub executable: String,
    pub args: Vec<String>,
    pub working_directory: String,
    pub launch_string: Option<String>,
}

/// The machine and the features that metadata rules are checked against.
/// `os` uses Mojang's names (`windows`, `osx`, `linux`); `custom_features`
/// maps feature names to values, one entry per name (`unique_keys`).
#[derive(Debug, Clone, PartialEq, Eq)]
pub struct LaunchContext {
    pub os: String,
    pub arch: String,
    pub demo_mode: bool,
    pub resolution: Option<(u32, u32)>,
    pub quick_play_support: bool,
    pub quick_play_singleplayer: bool,
    pub quick_play_multiplayer: bool,
    pub quick_play_realms: bool,
    pub custom_features: Vec<(String, bool)>,
}

/// A version JSON file as Mojang and mod loaders write it.
#[derive(Debug, Clone, PartialEq, Eq)]
pub struct MinecraftVersionJson {
    pub id: Option<String>,
    pub java_version: Option<JavaVersion>,
    pub main_class: Option<String>,
    pub assets: Option<String>,
    pub asset_index: Option<AssetIndex>,
    pub downloads: Option<VersionDownloads>,
    pub libraries: Vec<LibraryJson>,
    pub arguments: Option<ArgumentsJson>,
    pub minecraft_arguments: Option<String>,
    pub inherits_from: Option<String>,
    pub jar: Option<String>,
    pub logging: Option<LoggingJson>,
}

/// The Java runtime a version asks for.
#[derive(Debug, Clone, PartialEq, Eq)]
pub struct JavaVersion {
    pub component: Option<String>,
    pub major_version: Option<u32>,
}

/// Where a version's asset index is.
#[derive(Debug, Clone, PartialEq, Eq)]
pub struct AssetIndex {
    pub id: Option<String>,
    pub sha1: Option<String>,
    pub size: Option<u64>,
    pub total_size: Option<u64>,
    pub url: Option<String>,
}

/// The client and server jars of a version.
#[derive(Debug, Clone, PartialEq, Eq)]
pub struct VersionDownloads {
    pub client: Option<DownloadInfo>,
    pub server: Option<DownloadInfo>,
}

/// A downloadable file with its integrity data.
#[derive(Debug, Clone, PartialEq, Eq)]
pub struct DownloadInfo {
    pub id: Option<String>,
    pub sha1: Option<String>,
    pub size: Option<u64>,
    pub url: Option<String>,
    pub path: Option<String>,
}

/// A library entry of a version JSON file. The `natives` map goes from
/// Mojang OS names to classifiers; like every map of the metadata it is
/// held as the entries of its JSON object, whose keys are unique
/// (`unique_keys`), so that a lookup is a map lookup
/// (`lemma_lookup_is_map_lookup`).
#[derive(Debug, Clone, PartialEq, Eq)]
pub struct LibraryJson {
    pub name: String,
    pub downloads: Option<LibraryDownloads>,
    pub url: Option<String>,
    pub natives: Option<Vec<(String, String)>>,
    pub extract: Option<ExtractRules>,
    pub rules: Vec<Rule>,
}

/// A library's main artifact and its classifier artifacts, by classifier
/// (entries of a JSON object, with unique keys).
#[derive(Debug, Clone, PartialEq, Eq)]
pub struct LibraryDownloads {
    pub artifact: Option<DownloadInfo>,
    pub classifiers: Option<Vec<(String, DownloadInfo)>>,
}

/// Entry-name prefixes that native extraction leaves out.
#[derive(Debug, Clone, PartialEq, Eq)]
pub struct ExtractRules {
    pub exclude: Vec<String>,
}

/// Modern launch arguments.
#[derive(Debug, Clone, PartialEq, Eq)]
pub struct ArgumentsJson {
    pub game: Vec<ArgumentValue>,
    pub jvm: Vec<ArgumentValue>,
}

/// One argument entry: plain, or guarded by rules.
#[derive(Debug, Clone, PartialEq, Eq)]
pub enum ArgumentValue {
    String(String),
    Ruled { rules: Vec<Rule>, value: ArgumentValueList },
}

/// The value of a ruled argument: one argument or several.
#[derive(Debug, Clone, PartialEq, Eq)]
pub enum ArgumentValueList {
    One(String),
    Many(Vec<String>),
}

/// An allow or disallow rule, limited to an OS and to features (entries of
/// a JSON object, with unique keys).
#[derive(Debug, Clone, PartialEq, Eq)]
pub struct Rule {
    pub action: RuleAction,
    pub os: Option<OsRule>,
    pub features: Vec<(String, bool)>,
}

/// What a matching rule decides.
#[derive(Debug, Clone, Copy, PartialEq, Eq)]
pub enum RuleAction {
    Allow,
    Disallow,
}

/// The OS part of a rule.
#[derive(Debug, Clone, PartialEq, Eq)]
pub struct OsRule {
    pub name: Option<String>,
    pub arch: Option<String>,
    pub version: Option<String>,
}

/// Logging configuration of a version.
#[derive(Debug, Clone, PartialEq, Eq)]
pub struct LoggingJson {
    pub client: Option<LoggingClient>,
}

/// The client logging configuration.
#[derive(Debug, Clone, PartialEq, Eq)]
pub struct LoggingClient {
    pub argument: Option<String>,
    pub file: Option<DownloadInfo>,
    pub kind: Option<String>,
}

/// The value of the first entry with key `key`.
pub open spec fn pair_lookup<V>(pairs: Seq<(String, V)>, key: Seq<char>) -> Option<V>
    decreases pairs.len(),
{
    if pairs.len() == 0 {
        None
    } else if pairs[0].0@ == key {
        Some(pairs[0].1)
    } else {
        pair_lookup(pairs.drop_first(), key)
    }
}

/// Whether no two entries share a key, as in the entries of a JSON object
/// (the `natives`, `classifiers` and `features` maps and the custom
/// features of a launch context).
pub open spec fn unique_keys<V>(pairs: Seq<(String, V)>) -> bool {
    forall|i: int, j: int| 0 <= i < j < pairs.len() ==> #[trigger] pairs[i].0@ != #[trigger] pairs[j].0@
}

/// Whether some entry has key `key`.
pub open spec fn has_key<V>(pairs: Seq<(String, V)>, key: Seq<char>) -> bool {
    exists|i: int| 0 <= i < pairs.len() && #[trigger] pairs[i].0@ == key
}

/// The map that a list of entries stands for: each key to the value of an
/// entry with that key.
pub open spec fn entries_map<V>(pairs: Seq<(String, V)>) -> Map<Seq<char>, V> {
    Map::new(
        |k: Seq<char>| has_key(pairs, k),
        |k: Seq<char>| pairs[choose|i: int| 0 <= i < pairs.len() && #[trigger] pairs[i].0@ == k].1,
    )
}

/// With unique keys, looking a key up finds the value of its entry.
pub proof fn lemma_lookup_finds_entry<V>(pairs: Seq<(String, V)>, i: int)
    requires
        unique_keys(pairs),
        0 <= i < pairs.len(),
    ensures
        pair_lookup(pairs, pairs[i].0@) == Some(pairs[i].1),
    decreases i,
{
    if i > 0 {
        let rest = pairs.drop_first();
        assert(pairs[0].0@ != pairs[i].0@);
        assert(rest[i - 1] == pairs[i]);
        assert(unique_keys(rest)) by {
            assert forall|a: int, b: int| 0 <= a < b < rest.len() implies #[trigger] rest[a].0@
                != #[trigger] rest[b].0@ by {
                assert(rest[a] == pairs[a + 1]);
                assert(rest[b] == pairs[b + 1]);
            }
        }
        lemma_lookup_finds_entry(rest, i - 1);
    }
}

/// A key that no entry has is not found.
pub proof fn lemma_lookup_absent<V>(pairs: Seq<(String, V)>, key: Seq<char>)
    requires
        !has_key(pairs, key),
    ensures
        pair_lookup(pairs, key) is None,
    decreases pairs.len(),
{
    if pairs.len() > 0 {
        assert(pairs[0].0@ != key);
        let rest = pairs.drop_first();
        assert forall|i: int| 0 <= i < rest.len() implies #[trigger] rest[i].0@ != key by {
            assert(rest[i] == pairs[i + 1]);
        }
        lemma_lookup_absent(rest, key);
    }
}

/// Entries with unique keys are looked up as the map they stand for: a key
/// of the map gives its value, any other key nothing.
pub proof fn lemma_lookup_is_map_lookup<V>(pairs: Seq<(String, V)>, key: Seq<char>)
    requires
        unique_keys(pairs),
    ensures
        pair_lookup(pairs, key) == (if entries_map(pairs).dom().contains(key) {
            Some(entries_map(pairs)[key])
        } else {
            None
        }),
{
    if has_key(pairs, key) {
        let i = choose|i: int| 0 <= i < pairs.len() && #[trigger] pairs[i].0@ == key;
        lemma_lookup_finds_entry(pairs, i);
        assert(entries_map(pairs).dom().contains(key));
    } else {
        lemma_lookup_absent(pairs, key);
    }
}

/// The order of entries with unique keys does not matter: two lists that
/// hold the same entries look every key up alike.
pub proof fn lemma_lookup_ignores_order<V>(a: Seq<(String, V)>, b: Seq<(String, V)>, key: Seq<char>)
    requires
        unique_keys(a),
        unique_keys(b),
        a.to_set() == b.to_set(),
    ensures
        pair_lookup(a, key) == pair_lookup(b, key),
{
    if has_key(a, key) {
        let i = choose|i: int| 0 <= i < a.len() && #[trigger] a[i].0@ == key;
        assert(a.to_set().contains(a[i]));
        assert(b.contains(a[i]));
        let j = choose|j: int| 0 <= j < b.len() && b[j] == a[i];
        assert(b[j].0@ == key);
        lemma_lookup_finds_entry(a, i);
        lemma_lookup_finds_entry(b, j);
    } else {
        lemma_lookup_absent(a, key);
        if has_key(b, key) {
            let j = choose|j: int| 0 <= j < b.len() && #[trigger] b[j].0@ == key;
            assert(b.to_set().contains(b[j]));
            assert(a.contains(b[j]));
            let i = choose|i: int| 0 <= i < a.len() && a[i] == b[j];
            assert(a[i].0@ == key);
            assert(false);
        }
        lemma_lookup_absent(b, key);
    }
}

/// Whether the launch context has feature `f`.
pub open spec fn feature_on(ctx: LaunchContext, f: Seq<char>) -> bool {
    if f == "is_demo_user"@ {
        ctx.demo_mode
    } else if f == "has_custom_resolution"@ {
        ctx.resolution is Some
    } else if f == "has_quick_plays_support"@ {
        ctx.quick_play_support
    } else if f == "is_quick_play_singleplayer"@ {
        ctx.quick_play_singleplayer
    } else if f == "is_quick_play_multiplayer"@ {
        ctx.quick_play_multiplayer
    } else if f == "is_quick_play_realms"@ {
        ctx.quick_play_realms
    } else {
        match pair_lookup(ctx.custom_features@, f) {
            Some(b) => b,
            None => false,
        }
    }
}

/// Whether every feature a rule names has the value it asks for.
pub open spec fn features_hold(features: Seq<(String, bool)>, ctx: LaunchContext) -> bool {
    forall|i: int| 0 <= i < features.len() ==> feature_on(ctx, #[trigger] features[i].0@) == features[i].1
}

/// Whether the OS part of a rule matches the context.
pub open spec fn os_matches(rule: Option<OsRule>, ctx: LaunchContext) -> bool {
    match rule {
        None => true,
        Some(r) => {
            &&& (r.name matches Some(n) ==> n@ == ctx.os@)
            &&& (r.arch matches Some(a) ==> a@ == ctx.arch@)
        },
    }
}

/// Whether a rule applies in the context.
pub open spec fn rule_matches(r: Rule, ctx: LaunchContext) -> bool {
    os_matches(r.os, ctx) && features_hold(r.features@, ctx)
}

/// The decision of the last matching rule, or disallow when none matches.
pub open spec fn last_decision(rules: Seq<Rule>, ctx: LaunchContext) -> bool
    decreases rules.len(),
{
    if rules.len() == 0 {
        false
    } else if rule_matches(rules.last(), ctx) {
        rules.last().action == RuleAction::Allow
    } else {
        last_decision(rules.drop_last(), ctx)
    }
}

/// Whether rules allow something: always without rules, otherwise as the
/// last matching rule says.
pub open spec fn rules_allow(rules: Seq<Rule>, ctx: LaunchContext) -> bool {
    rules.len() == 0 || last_decision(rules, ctx)
}

/// Whether a rule's OS part names an architecture other than the
/// context's.
pub open spec fn names_other_arch(r: Rule, ctx: LaunchContext) -> bool {
    r.os is Some && r.os->0.arch is Some && r.os->0.arch->0@ != ctx.arch@
}

/// Law: a rule whose OS part names another architecture, or another OS,
/// than the context never matches it, whatever its action and features
/// (so Mojang's `x86`-only `-Xss1M` rule does not apply on `x86_64`).
pub proof fn lemma_rule_for_other_machine_does_not_match(r: Rule, ctx: LaunchContext)
    ensures
        names_other_arch(r, ctx) ==> !rule_matches(r, ctx),
        (r.os is Some && r.os->0.name is Some && r.os->0.name->0@ != ctx.os@) ==> !rule_matches(r, ctx),
{
}

/// Law: rules that all name another architecture than the context's never
/// allow anything (a rule list is only empty-allowed when empty).
pub proof fn lemma_rules_for_other_arch_never_allow(rules: Seq<Rule>, ctx: LaunchContext)
    requires
        rules.len() > 0,
        forall|i: int| 0 <= i < rules.len() ==> names_other_arch(#[trigger] rules[i], ctx),
    ensures
        !rules_allow(rules, ctx),
    decreases rules.len(),
{
    assert(names_other_arch(rules[rules.len() - 1], ctx));
    lemma_rule_for_other_machine_does_not_match(rules.last(), ctx);
    assert(!rule_matches(rules.last(), ctx));
    if rules.len() > 1 {
        let rest = rules.drop_last();
        assert forall|i: int| 0 <= i < rest.len() implies names_other_arch(#[trigger] rest[i], ctx) by {
            assert(rest[i] == rules[i]);
        }
        lemma_rules_for_other_arch_never_allow(rest, ctx);
    } else {
        assert(last_decision(rules.drop_last(), ctx) == false);
    }
}

/// Law: appending a rule for another architecture to a non-empty rule list
/// leaves its decision unchanged.
pub proof fn lemma_rule_for_other_arch_changes_nothing(rules: Seq<Rule>, r: Rule, ctx: LaunchContext)
    requires
        rules.len() > 0,
        names_other_arch(r, ctx),
    ensures
        rules_allow(rules.push(r), ctx) == rules_allow(rules, ctx),
{
    lemma_rule_for_other_machine_does_not_match(r, ctx);
    assert(rules.push(r).drop_last() =~= rules);
    assert(rules.push(r).last() == r);
}

/// The position of the first entry with key `key`.
pub fn lookup_pair<V>(pairs: &Vec<(String, V)>, key: &[char]) -> (r: Option<usize>)
    ensures
        match r {
            Some(i) => i < pairs@.len() && pair_lookup(pairs@, key@) == Some(pairs@[i as int].1),
            None => pair_lookup(pairs@, key@) is None,
        },
{
    let mut i: usize = 0;
    assert(pairs@.skip(0) =~= pairs@);
    while i < pairs.len()
        invariant
            i <= pairs.len(),
            pair_lookup(pairs@, key@) == pair_lookup(pairs@.skip(i as int), key@),
        decreases pairs.len() - i,
    {
        assert(pairs@.skip(i as int)[0] == pairs@[i as int]);
        assert(pairs@.skip(i as int).drop_first() =~= pairs@.skip(i + 1));
        let k = chars_of(pairs[i].0.as_str());
        if chars_eq(k.as_slice(), key) {
            return Some(i);
        }
        i += 1;
    }
    None
}

/// Whether `s` spells the literal `lit`.
fn is_literal(s: &[char], lit: &str) -> (b: bool)
    ensures
        b == (s@ == lit@),
{
    let l = chars_of(lit);
    chars_eq(s, l.as_slice())
}

impl LaunchContext {
    /// Whether the context has a feature that rules may ask for.
    fn feature_enabled(&self, feature: &[char]) -> (b: bool)
        ensures
            b == feature_on(*self, feature@),
    {
        if is_literal(feature, "is_demo_user") {
            self.demo_mode
        } else if is_literal(feature, "has_custom_resolution") {
            self.resolution.is_some()
        } else if is_literal(feature, "has_quick_plays_support") {
            self.quick_play_support
        } else if is_literal(feature, "is_quick_play_singleplayer") {
            self.quick_play_singleplayer
        } else if is_literal(feature, "is_quick_play_multiplayer") {
            self.quick_play_multiplayer
        } else if is_literal(feature, "is_quick_play_realms") {
            self.quick_play_realms
        } else {
            match lookup_pair(&self.custom_features, feature) {
                Some(i) => self.custom_features[i].1,
                None => false,
            }
        }
    }
}

fn features_match(features: &Vec<(String, bool)>, context: &LaunchContext) -> (b: bool)
    ensures
        b == features_hold(features@, *context),
{
    let mut i: usize = 0;
    while i < features.len()
        invariant
            i <= features.len(),
            forall|j: int| 0 <= j < i ==> feature_on(*context, #[trigger] features@[j].0@) == features@[j].1,
        decreases features.len() - i,
    {
        let name = chars_of(features[i].0.as_str());
        if context.feature_enabled(name.as_slice()) != features[i].1 {
            return false;
        }
        i += 1;
    }
    true
}

fn os_rule_matches(rule: &Option<OsRule>, context: &LaunchContext) -> (b: bool)
    ensures
        b == os_matches(*rule, *context),
{
    match rule {
        None => true,
        Some(r) => {
            let os = chars_of(context.os.as_str());
            let arch = chars_of(context.arch.as_str());
            let name_ok = match &r.name {
                Some(n) => {
                    let n = chars_of(n.as_str());
                    chars_eq(n.as_slice(), os.as_slice())
                },
                None => true,
            };
            let arch_ok = match &r.arch {
                Some(a) => {
                    let a = chars_of(a.as_str());
                    chars_eq(a.as_slice(), arch.as_slice())
                },
                None => true,
            };
            name_ok && arch_ok
        },
    }
}

/// Whether rules allow something in the context: without rules always;
/// otherwise the last rule whose OS and features match decides, and
/// nothing is allowed when none matches.
pub fn rules_apply_with_context(rules: &Vec<Rule>, context: &LaunchContext) -> (b: bool)
    ensures
        b == rules_allow(rules@, *context),
{
    if rules.len() == 0 {
        return true;
    }
    let mut allowed = false;
    let mut i: usize = 0;
    assert(rules@.take(0) =~= Seq::<Rule>::empty());
    while i < rules.len()
        invariant
            i <= rules.len(),
            allowed == last_decision(rules@.take(i as int), *context),
        decreases rules.len() - i,
    {
        assert(rules@.take(i + 1).drop_last() =~= rules@.take(i as int));
        assert(rules@.take(i + 1).last() == rules@[i as int]);
        let r = &rules[i];
        if os_rule_matches(&r.os, context) && features_match(&r.features, context) {
            allowed = match r.action {
                RuleAction::Allow => true,
                RuleAction::Disallow => false,
            };
        }
        i += 1;
    }
    assert(rules@.take(rules.len() as int) =~= rules@);
    allowed
}

/// `group/with/slashes/artifact/version/artifact-version` for the
/// coordinate pieces `p` of a Maven name.
pub open spec fn maven_stem(p: Seq<Seq<char>>) -> Seq<char> {
    replace_char_spec(p[0], '.', '/') + seq!['/'] + p[1] + seq!['/'] + p[2] + seq!['/'] + p[1] + seq!['-']
        + p[2]
}

/// The repository path of a Maven library name `group:artifact:version` or
/// `group:artifact:version:classifier`; a name of fewer pieces has its
/// colons turned into slashes.
pub open spec fn maven_path_spec(name: Seq<char>) -> Seq<char> {
    let p = split_spec(name, ':');
    if p.len() < 3 {
        replace_char_spec(name, ':', '/')
    } else {
        maven_stem(p) + (if p.len() > 3 {
            seq!['-'] + p[3]
        } else {
            Seq::empty()
        }) + ".jar"@
    }
}

/// The part of a short (fewer than three pieces) library name that a
/// classifier path keeps: its slash form without its last four bytes.
pub open spec fn short_name_stem(name: Seq<char>) -> Option<Seq<char>> {
    let r = replace_char_spec(name, ':', '/');
    byte_prefix(
        r,
        if utf8_len(r) > 4 {
            utf8_len(r) - 4
        } else {
            0
        },
    )
}

/// Whether a classifier path can be formed for `name`: always for a Maven
/// name of three or more pieces; for a shorter one, only when dropping its
/// last four bytes ends on a character boundary.
pub open spec fn classifier_path_defined(name: Seq<char>) -> bool {
    split_spec(name, ':').len() >= 3 || short_name_stem(name) is Some
}

/// The path of a library's classifier artifact:
/// `group/artifact/version/artifact-version-classifier.jar`.
pub open spec fn classifier_path_spec(name: Seq<char>, classifier: Seq<char>) -> Seq<char> {
    let p = split_spec(name, ':');
    let stem = if p.len() >= 3 {
        maven_stem(p)
    } else {
        short_name_stem(name).unwrap()
    };
    stem + seq!['-'] + classifier + ".jar"@
}

fn maven_stem_of(p: &Vec<Vec<char>>) -> (out: Vec<char>)
    requires
        p@.len() >= 3,
    ensures
        out@ == maven_stem(views(p@)),
{
    let ghost pv = views(p@);
    assert(pv[0] == p@[0]@ && pv[1] == p@[1]@ && pv[2] == p@[2]@);
    let mut out = replace_char(p[0].as_slice(), '.', '/');
    out.push('/');
    push_all(&mut out, p[1].as_slice());
    out.push('/');
    push_all(&mut out, p[2].as_slice());
    out.push('/');
    push_all(&mut out, p[1].as_slice());
    out.push('-');
    push_all(&mut out, p[2].as_slice());
    assert(out@ =~= maven_stem(pv));
    out
}

/// The repository path of a Maven library name.
pub(crate) fn maven_path(name: &[char]) -> (out: Vec<char>)
    ensures
        out@ == maven_path_spec(name@),
{
    let parts = split_chars(name, ':');
    if parts.len() < 3 {
        return replace_char(name, ':', '/');
    }
    let ghost pv = views(parts@);
    let mut out = maven_stem_of(&parts);
    if parts.len() > 3 {
        assert(pv[3] == parts@[3]@);
        out.push('-');
        push_all(&mut out, parts[3].as_slice());
    }
    let jar = chars_of(".jar");
    push_all(&mut out, jar.as_slice());
    assert(out@ =~= maven_path_spec(name@));
    out
}

/// Whether a classifier path can be formed for `name`.
pub fn classifier_path_ok(name: &str) -> (b: bool)
    ensures
        b == classifier_path_defined(name@),
{
    let n = chars_of(name);
    let parts = split_chars(n.as_slice(), ':');
    if parts.len() >= 3 {
        return true;
    }
    short_stem(n.as_slice()).is_some()
}

fn short_stem(name: &[char]) -> (r: Option<Vec<char>>)
    ensures
        r.deep_view() == short_name_stem(name@),
{
    let r = replace_char(name, ':', '/');
    let total = chars_utf8_len(r.as_slice());
    let keep = if total > 4 {
        total - 4
    } else {
        0
    };
    take_bytes(r.as_slice(), keep)
}

/// The path of a library's classifier artifact.
pub(crate) fn classifier_path(name: &[char], classifier: &[char]) -> (out: Vec<char>)
    requires
        classifier_path_defined(name@),
    ensures
        out@ == classifier_path_spec(name@, classifier@),
{
    let parts = split_chars(name, ':');
    let mut out = if parts.len() >= 3 {
        maven_stem_of(&parts)
    } else {
        match short_stem(name) {
            Some(st) => {
                assert(st.deep_view() =~= st@);
                st
            },
            None => {
                assert(false);
                Vec::new()
            },
        }
    };
    out.push('-');
    push_all(&mut out, classifier);
    let jar = chars_of(".jar");
    push_all(&mut out, jar.as_slice());
    assert(out@ =~= classifier_path_spec(name@, classifier@));
    out
}

/// The bit width that `${arch}` in a native classifier stands for.
pub open spec fn arch_bits(arch: Seq<char>) -> Seq<char> {
    if contains_seq(arch, "64"@) {
        "64"@
    } else {
        "32"@
    }
}

/// The classifier of natives for an OS when a library does not list them.
pub open spec fn os_native_classifier(os: Seq<char>) -> Seq<char> {
    if os == "windows"@ {
        "natives-windows"@
    } else if os == "osx"@ {
        "natives-osx"@
    } else {
        "natives-linux"@
    }
}

/// The native classifier a library lists for the context's OS, with
/// `${arch}` replaced by the bit width.
pub open spec fn listed_native_classifier(lib: LibraryJson, ctx: LaunchContext) -> Option<Seq<char>> {
    match lib.natives {
        Some(m) => match pair_lookup(m@, ctx.os@) {
            Some(c) => Some(replace_all(c@, "${arch}"@, arch_bits(ctx.arch@))),
            None => None,
        },
        None => None,
    }
}

/// The classifier artifacts a library offers.
pub open spec fn library_classifiers(lib: LibraryJson) -> Option<Seq<(String, DownloadInfo)>> {
    match lib.downloads {
        Some(d) => match d.classifiers {
            Some(c) => Some(c@),
            None => None,
        },
        None => None,
    }
}

/// The native classifier to extract for a library: the one its `natives`
/// map lists for the OS, or, without that map, the OS default when the
/// library offers an artifact under it.
pub open spec fn extract_classifier(lib: LibraryJson, ctx: LaunchContext) -> Option<Seq<char>> {
    if lib.natives is Some {
        listed_native_classifier(lib, ctx)
    } else {
        let c = os_native_classifier(ctx.os@);
        match library_classifiers(lib) {
            Some(cl) => if pair_lookup(cl, c) is Some {
                Some(c)
            } else {
                None
            },
            None => None,
        }
    }
}

fn native_arch_bits(arch: &[char]) -> (out: Vec<char>)
    ensures
        out@ == arch_bits(arch@),
{
    let sixty_four = chars_of("64");
    if contains_chars(arch, sixty_four.as_slice()) {
        sixty_four
    } else {
        chars_of("32")
    }
}

pub(crate) fn native_classifier_for_os(os: &[char]) -> (out: Vec<char>)
    ensures
        out@ == os_native_classifier(os@),
{
    let windows = chars_of("windows");
    let osx = chars_of("osx");
    if chars_eq(os, windows.as_slice()) {
        chars_of("natives-windows")
    } else if chars_eq(os, osx.as_slice()) {
        chars_of("natives-osx")
    } else {
        chars_of("natives-linux")
    }
}

/// The classifier a library's `natives` map lists for the context.
pub(crate) fn listed_classifier(lib: &LibraryJson, context: &LaunchContext) -> (r: Option<Vec<char>>)
    ensures
        r.deep_view() == listed_native_classifier(*lib, *context),
{
    match &lib.natives {
        Some(m) => {
            let os = chars_of(context.os.as_str());
            match lookup_pair(m, os.as_slice()) {
                Some(i) => {
                    let c = chars_of(m[i].1.as_str());
                    let pat = chars_of("${arch}");
                    let arch = chars_of(context.arch.as_str());
                    let bits = native_arch_bits(arch.as_slice());
                    proof {
                        reveal_strlit("${arch}");
                    }
                    let r = replace_seq(c.as_slice(), pat.as_slice(), bits.as_slice());
                    assert(r.deep_view() =~= r@);
                    Some(r)
                },
                None => None,
            }
        },
        None => None,
    }
}

/// The native classifier to extract for a library in the context.
pub(crate) fn native_classifier_for_context(lib: &LibraryJson, context: &LaunchContext) -> (r: Option<Vec<char>>)
    ensures
        r.deep_view() == extract_classifier(*lib, *context),
{
    if lib.natives.is_some() {
        listed_classifier(lib, context)
    } else {
        let os = chars_of(context.os.as_str());
        let c = native_classifier_for_os(os.as_slice());
        match &lib.downloads {
            Some(d) => match &d.classifiers {
                Some(cl) => {
                    if lookup_pair(cl, c.as_slice()).is_some() {
                        assert(c.deep_view() =~= c@);
                        Some(c)
                    } else {
                        None
                    }
                },
                None => None,
            },
            None => None,
        }
    }
}

/// A library as its name, path and URL.
pub open spec fn library_view(l: Library) -> (Seq<char>, Seq<char>, Option<Seq<char>>) {
    (l.name@, l.path@, l.url.deep_view())
}

/// A library's main artifact entry.
pub open spec fn artifact_info(lib: LibraryJson) -> Option<DownloadInfo> {
    match lib.downloads {
        Some(d) => d.artifact,
        None => None,
    }
}

/// Where a library's main artifact lies under the libraries directory: the
/// path its artifact entry gives, or, for a library without any download
/// entries, its Maven path.
pub open spec fn library_rel_path(lib: LibraryJson) -> Option<Seq<char>> {
    match artifact_info(lib) {
        Some(a) if a.path is Some => Some(a.path->0@),
        _ => if lib.downloads is None {
            Some(maven_path_spec(lib.name@))
        } else {
            None
        },
    }
}

/// The URL of a library's main artifact: its artifact entry's, else the
/// library's own.
pub open spec fn library_url(lib: LibraryJson) -> Option<Seq<char>> {
    match artifact_info(lib) {
        Some(a) if a.url is Some => Some(a.url->0@),
        _ => lib.url.deep_view(),
    }
}

/// The class-path entry of a library, when it has a main artifact.
pub open spec fn classpath_entry(lib: LibraryJson, game_dir: Seq<char>) -> Option<
    (Seq<char>, Seq<char>, Option<Seq<char>>),
> {
    match library_rel_path(lib) {
        Some(p) => Some((lib.name@, path_join(path_join(game_dir, "libraries"@), p), library_url(lib))),
        None => None,
    }
}

/// The class-path entries of the libraries that the rules allow, in order.
pub open spec fn effective_spec(libs: Seq<LibraryJson>, game_dir: Seq<char>, ctx: LaunchContext) -> Seq<
    (Seq<char>, Seq<char>, Option<Seq<char>>),
>
    decreases libs.len(),
{
    if libs.len() == 0 {
        Seq::empty()
    } else {
        let prev = effective_spec(libs.drop_last(), game_dir, ctx);
        if rules_allow(libs.last().rules@, ctx) {
            match classpath_entry(libs.last(), game_dir) {
                Some(e) => prev.push(e),
                None => prev,
            }
        } else {
            prev
        }
    }
}

/// A copy of an optional string.
pub(crate) fn clone_opt(s: &Option<String>) -> (r: Option<String>)
    ensures
        r == *s,
{
    match s {
        Some(x) => Some(x.clone()),
        None => None,
    }
}

/// The class-path entry of one library.
fn library_entry(lib: &LibraryJson, libraries_dir: &[char]) -> (r: Option<Library>)
    ensures
        match r {
            Some(l) => match library_rel_path(*lib) {
                Some(p) => library_view(l) == (lib.name@, path_join(libraries_dir@, p), library_url(*lib)),
                None => false,
            },
            None => library_rel_path(*lib) is None,
        },
{
    let artifact: Option<&DownloadInfo> = match &lib.downloads {
        Some(d) => match &d.artifact {
            Some(a) => Some(a),
            None => None,
        },
        None => None,
    };
    let rel: Option<Vec<char>> = match artifact {
        Some(a) if a.path.is_some() => {
            let p = a.path.as_ref().unwrap();
            Some(chars_of(p.as_str()))
        },
        _ => if lib.downloads.is_none() {
            let n = chars_of(lib.name.as_str());
            Some(maven_path(n.as_slice()))
        } else {
            None
        },
    };
    let url: Option<String> = match artifact {
        Some(a) if a.url.is_some() => clone_opt(&a.url),
        _ => clone_opt(&lib.url),
    };
    match rel {
        Some(p) => {
            let path = join_path(libraries_dir, p.as_slice());
            Some(Library { name: lib.name.clone(), path: string_of(path.as_slice()), url })
        },
        None => None,
    }
}

impl VersionMetadata {
    /// Metadata with only an id.
    pub fn minimal(id: &str) -> (m: Self)
        ensures
            m.id@ == id@,
            m.main_class is None,
            m.libraries@.len() == 0,
            m.assets_index is None,
    {
        VersionMetadata {
            id: String::from_str(id),
            main_class: None,
            libraries: Vec::new(),
            assets_index: None,
        }
    }
}

/// `<game>/versions/<version>/<version>.json`.
pub open spec fn version_json_path_spec(game_dir: Seq<char>, version: Seq<char>) -> Seq<char> {
    path_join(path_join(path_join(game_dir, "versions"@), version), version + ".json"@)
}

/// The path of a version's JSON file.
pub fn version_json_path(game_directory: &str, version: &str) -> (p: String)
    ensures
        p@ == version_json_path_spec(game_directory@, version@),
{
    let g = chars_of(game_directory);
    let v = chars_of(version);
    let a = join_path_str(g.as_slice(), "versions");
    let b = join_path(a.as_slice(), v.as_slice());
    let mut file = copy_chars(v.as_slice());
    let ext = chars_of(".json");
    push_all(&mut file, ext.as_slice());
    let c = join_path(b.as_slice(), file.as_slice());
    string_of(c.as_slice())
}

/// The part of `s` after its last `c` (all of `s` without one).
pub open spec fn after_last(s: Seq<char>, c: char) -> Seq<char>
    decreases s.len(),
{
    if s.len() == 0 {
        s
    } else if s.last() == c {
        Seq::empty()
    } else {
        after_last(s.drop_last(), c).push(s.last())
    }
}

fn after_last_char(s: &[char], c: char) -> (out: Vec<char>)
    ensures
        out@ == after_last(s@, c),
{
    let mut i = s.len();
    assert(s@.take(i as int) =~= s@);
    assert(after_last(s@, c) + s@.skip(i as int) =~= after_last(s@, c));
    while i > 0 && s[i - 1] != c
        invariant
            i <= s.len(),
            after_last(s@, c) == after_last(s@.take(i as int), c) + s@.skip(i as int),
        decreases i,
    {
        assert(s@.take(i as int).drop_last() =~= s@.take(i - 1));
        assert(s@.take(i as int).last() == s@[i - 1]);
        assert(s@.skip(i - 1) =~= seq![s@[i - 1]] + s@.skip(i as int));
        assert(after_last(s@.take(i - 1), c).push(s@[i - 1]) + s@.skip(i as int) =~= after_last(
            s@.take(i - 1),
            c,
        ) + s@.skip(i - 1));
        i -= 1;
    }
    proof {
        if i > 0 {
            assert(s@.take(i as int).last() == s@[i - 1]);
        } else {
            assert(s@.take(0) =~= Seq::<char>::empty());
        }
        assert(after_last(s@.take(i as int), c) =~= Seq::<char>::empty());
        assert(Seq::<char>::empty() + s@.skip(i as int) =~= s@.skip(i as int));
    }
    slice_after(s, i)
}

fn slice_after(s: &[char], i: usize) -> (out: Vec<char>)
    requires
        i <= s.len(),
    ensures
        out@ == s@.skip(i as int),
{
    let out = crate::text::slice_chars(s, i, s.len());
    assert(s@.subrange(i as int, s@.len() as int) =~= s@.skip(i as int));
    out
}

/// The file name of a logging configuration: its id, else the last part of
/// its URL, else `client-logging.xml`.
pub open spec fn logging_file_name(file: DownloadInfo) -> Seq<char> {
    match file.id {
        Some(id) => id@,
        None => match file.url {
            Some(u) => after_last(u@, '/'),
            None => "client-logging.xml"@,
        },
    }
}

/// `<game>/assets/log_configs/<file name>`.
pub open spec fn logging_config_path_spec(game_dir: Seq<char>, file: DownloadInfo) -> Seq<char> {
    path_join(path_join(path_join(game_dir, "assets"@), "log_configs"@), logging_file_name(file))
}

/// Where a version's logging configuration is kept.
pub fn logging_config_path(game_directory: &str, file: &DownloadInfo) -> (p: String)
    ensures
        p@ == logging_config_path_spec(game_directory@, *file),
{
    let g = chars_of(game_directory);
    let a = join_path_str(g.as_slice(), "assets");
    let b = join_path_str(a.as_slice(), "log_configs");
    let name = match &file.id {
        Some(id) => chars_of(id.as_str()),
        None => match &file.url {
            Some(u) => {
                let uc = chars_of(u.as_str());
                after_last_char(uc.as_slice(), '/')
            },
            None => chars_of("client-logging.xml"),
        },
    };
    let c = join_path(b.as_slice(), name.as_slice());
    string_of(c.as_slice())
}

impl MinecraftVersionJson {
    /// Lays this (parent) profile under `child`: the child's values win
    /// where it has them, the jar falls back to the parent's and then to the
    /// parent's id, and the parent's libraries come before the child's.
    pub fn inherit(self, child: Self) -> (r: Self)
        ensures
            r.id == (if child.id is Some { child.id } else { self.id }),
            r.java_version == (if child.java_version is Some { child.java_version } else { self.java_version }),
            r.main_class == (if child.main_class is Some { child.main_class } else { self.main_class }),
            r.assets == (if child.assets is Some { child.assets } else { self.assets }),
            r.asset_index == (if child.asset_index is Some { child.asset_index } else { self.asset_index }),
            r.downloads == (if child.downloads is Some { child.downloads } else { self.downloads }),
            r.arguments == (if child.arguments is Some { child.arguments } else { self.arguments }),
            r.minecraft_arguments == (if child.minecraft_arguments is Some {
                child.minecraft_arguments
            } else {
                self.minecraft_arguments
            }),
            r.inherits_from == child.inherits_from,
            r.jar == (if child.jar is Some {
                child.jar
            } else if self.jar is Some {
                self.jar
            } else {
                child.inherits_from
            }),
            r.logging == (if child.logging is Some { child.logging } else { self.logging }),
            r.libraries@ == self.libraries@ + child.libraries@,
    {
        let mut parent = self;
        let jar = if child.jar.is_some() {
            clone_opt(&child.jar)
        } else if parent.jar.is_some() {
            clone_opt(&parent.jar)
        } else {
            clone_opt(&child.inherits_from)
        };
        let mut child_libraries = child.libraries;
        parent.libraries.append(&mut child_libraries);
        MinecraftVersionJson {
            id: if child.id.is_some() { child.id } else { parent.id },
            java_version: if child.java_version.is_some() { child.java_version } else { parent.java_version },
            main_class: if child.main_class.is_some() { child.main_class } else { parent.main_class },
            assets: if child.assets.is_some() { child.assets } else { parent.assets },
            asset_index: if child.asset_index.is_some() { child.asset_index } else { parent.asset_index },
            downloads: if child.downloads.is_some() { child.downloads } else { parent.downloads },
            libraries: parent.libraries,
            arguments: if child.arguments.is_some() { child.arguments } else { parent.arguments },
            minecraft_arguments: if child.minecraft_arguments.is_some() {
                child.minecraft_arguments
            } else {
                parent.minecraft_arguments
            },
            inherits_from: child.inherits_from,
            jar,
            logging: if child.logging.is_some() { child.logging } else { parent.logging },
        }
    }

    /// The class-path libraries that the rules allow in the context: each
    /// library with a main artifact, under `<game>/libraries`.
    pub fn effective_libraries_with_context(&self, game_directory: &str, context: &LaunchContext) -> (libs: Vec<Library>)
        ensures
            libs@.map_values(|l: Library| library_view(l)) == effective_spec(
                self.libraries@,
                game_directory@,
                *context,
            ),
    {
        let g = chars_of(game_directory);
        let libraries_dir = join_path_str(g.as_slice(), "libraries");
        let mut out: Vec<Library> = Vec::new();
        let mut i: usize = 0;
        assert(self.libraries@.take(0) =~= Seq::<LibraryJson>::empty());
        assert(out@.map_values(|l: Library| library_view(l)) =~= Seq::<(Seq<char>, Seq<char>, Option<Seq<char>>)>::empty());
        while i < self.libraries.len()
            invariant
                i <= self.libraries.len(),
                libraries_dir@ == path_join(game_directory@, "libraries"@),
                out@.map_values(|l: Library| library_view(l)) == effective_spec(
                    self.libraries@.take(i as int),
                    game_directory@,
                    *context,
                ),
            decreases self.libraries.len() - i,
        {
            let lib = &self.libraries[i];
            assert(self.libraries@.take(i + 1).drop_last() =~= self.libraries@.take(i as int));
            assert(self.libraries@.take(i + 1).last() == *lib);
            if rules_apply_with_context(&lib.rules, context) {
                match library_entry(lib, libraries_dir.as_slice()) {
                    Some(l) => {
                        let ghost prev = out@.map_values(|l: Library| library_view(l));
                        out.push(l);
                        assert(out@.map_values(|l: Library| library_view(l)) =~= prev.push(library_view(l)));
                    },
                    None => {},
                }
            }
            i += 1;
        }
        assert(self.libraries@.take(self.libraries.len() as int) =~= self.libraries@);
        out
    }
}

/// The part of a version id before its first `-` or `_`.
pub open spec fn version_prefix(v: Seq<char>) -> Seq<char>
    decreases v.len(),
{
    if v.len() == 0 || v[0] == '-' || v[0] == '_' {
        Seq::empty()
    } else {
        seq![v[0]] + version_prefix(v.drop_first())
    }
}

/// A piece read as a `u32`.
pub open spec fn piece_u32(p: Seq<char>) -> Option<u32> {
    match parse_unsigned(p) {
        Some(n) => if n <= u32::MAX {
            Some(n as u32)
        } else {
            None
        },
        None => None,
    }
}

/// All pieces read as numbers, or nothing when one is not a number.
pub open spec fn piece_numbers(parts: Seq<Seq<char>>) -> Option<Seq<u32>>
    decreases parts.len(),
{
    if parts.len() == 0 {
        Some(Seq::empty())
    } else {
        match (piece_numbers(parts.drop_last()), piece_u32(parts.last())) {
            (Some(ns), Some(n)) => Some(ns.push(n)),
            _ => None,
        }
    }
}

/// The Java major version that a numeric Minecraft version needs: 8 up
/// to 1.16, 17 for 1.17 to 1.20.4, 21 for 1.20.5 to 1.25, 25 after that
/// and for year-numbered versions (26 on).
pub open spec fn java_for_numbers(ns: Seq<u32>) -> Option<u32> {
    if ns.len() == 0 {
        None
    } else if ns[0] >= 26 {
        Some(25)
    } else if ns[0] != 1 || ns.len() < 2 {
        None
    } else {
        let minor = ns[1];
        if minor <= 16 {
            Some(8)
        } else if minor <= 19 {
            Some(17)
        } else if minor == 20 {
            let patch = if ns.len() > 2 {
                ns[2]
            } else {
                0
            };
            Some(
                if patch <= 4 {
                    17
                } else {
                    21
                },
            )
        } else if minor <= 25 {
            Some(21)
        } else {
            Some(25)
        }
    }
}

/// The Java major version inferred from a Minecraft version id: the part
/// before any `-` or `_`, split at dots, every piece a number.
pub open spec fn infer_java_major(v: Seq<char>) -> Option<u32> {
    match piece_numbers(split_spec(version_prefix(v), '.')) {
        Some(ns) => java_for_numbers(ns),
        None => None,
    }
}

fn version_prefix_of(v: &[char]) -> (out: Vec<char>)
    ensures
        out@ == version_prefix(v@),
{
    let mut i: usize = 0;
    assert(v@.skip(0) =~= v@);
    while i < v.len() && v[i] != '-' && v[i] != '_'
        invariant
            i <= v.len(),
            version_prefix(v@) == v@.take(i as int) + version_prefix(v@.skip(i as int)),
        decreases v.len() - i,
    {
        assert(v@.skip(i as int)[0] == v@[i as int]);
        assert(v@.skip(i as int).drop_first() =~= v@.skip(i + 1));
        assert(v@.take(i as int) + (seq![v@[i as int]] + version_prefix(v@.skip(i + 1))) =~= v@.take(i + 1)
            + version_prefix(v@.skip(i + 1)));
        i += 1;
    }
    proof {
        if i < v.len() {
            assert(v@.skip(i as int)[0] == v@[i as int]);
        }
        assert(version_prefix(v@.skip(i as int)) =~= Seq::<char>::empty());
        assert(v@.take(i as int) + Seq::<char>::empty() =~= v@.take(i as int));
    }
    let out = crate::text::slice_chars(v, 0, i);
    assert(out@ =~= v@.take(i as int));
    out
}

/// The Java major version inferred from a Minecraft version id.
pub fn infer_java_major_from_minecraft_version(version: &str) -> (r: Option<u32>)
    ensures
        r == infer_java_major(version@),
{
    let v = chars_of(version);
    infer_java_major_of(v.as_slice())
}

fn infer_java_major_of(version: &[char]) -> (r: Option<u32>)
    ensures
        r == infer_java_major(version@),
{
    let numeric = version_prefix_of(version);
    let parts = split_chars(numeric.as_slice(), '.');
    let ghost pv = views(parts@);
    let mut nums: Vec<u32> = Vec::new();
    let mut i: usize = 0;
    assert(pv.take(0) =~= Seq::<Seq<char>>::empty());
    while i < parts.len()
        invariant
            i <= parts.len(),
            pv == views(parts@),
            pv == split_spec(version_prefix(version@), '.'),
            piece_numbers(pv.take(i as int)) == Some(nums@),
        decreases parts.len() - i,
    {
        assert(pv.take(i + 1).drop_last() =~= pv.take(i as int));
        assert(pv.take(i + 1).last() == parts@[i as int]@);
        match parse_decimal(parts[i].as_slice(), u32::MAX as u64) {
            Some(n) => {
                nums.push(n as u32);
            },
            None => {
                proof {
                    assert(piece_u32(pv.take(i + 1).last()) is None);
                    assert(piece_numbers(pv.take(i + 1)) is None);
                    lemma_piece_numbers_none(pv, i as int);
                }
                return None;
            },
        }
        i += 1;
    }
    assert(pv.take(parts.len() as int) =~= pv);
    if nums.len() == 0 {
        return None;
    }
    let major = nums[0];
    if major >= 26 {
        return Some(25);
    }
    if major != 1 || nums.len() < 2 {
        return None;
    }
    let minor = nums[1];
    if minor <= 16 {
        Some(8)
    } else if minor <= 19 {
        Some(17)
    } else if minor == 20 {
        let patch = if nums.len() > 2 {
            nums[2]
        } else {
            0
        };
        Some(
            if patch <= 4 {
                17
            } else {
                21
            },
        )
    } else if minor <= 25 {
        Some(21)
    } else {
        Some(25)
    }
}

proof fn lemma_piece_numbers_none(parts: Seq<Seq<char>>, i: int)
    requires
        0 <= i < parts.len(),
        piece_numbers(parts.take(i + 1)) is None,
    ensures
        piece_numbers(parts) is None,
    decreases parts.len() - i,
{
    if i + 1 < parts.len() {
        assert(parts.take(i + 2).drop_last() =~= parts.take(i + 1));
        lemma_piece_numbers_none(parts, i + 1);
    } else {
        assert(parts.take(i + 1) =~= parts);
    }
}

/// Text without `-`, `_` or `.`, such as the digits of a number.
pub open spec fn plain_piece(s: Seq<char>) -> bool {
    forall|i: int| 0 <= i < s.len() ==> #[trigger] s[i] != '-' && s[i] != '_' && s[i] != '.'
}

proof fn lemma_prefix_plain(v: Seq<char>)
    requires
        forall|i: int| 0 <= i < v.len() ==> #[trigger] v[i] != '-' && v[i] != '_',
    ensures
        version_prefix(v) == v,
    decreases v.len(),
{
    if v.len() > 0 {
        assert forall|i: int| 0 <= i < v.drop_first().len() implies #[trigger] v.drop_first()[i] != '-'
            && v.drop_first()[i] != '_' by {
            assert(v.drop_first()[i] == v[i + 1]);
        }
        lemma_prefix_plain(v.drop_first());
        assert(seq![v[0]] + v.drop_first() =~= v);
    }
}

proof fn lemma_split_plain(s: Seq<char>, c: char, cur: Seq<char>, acc: Seq<Seq<char>>)
    requires
        forall|i: int| 0 <= i < s.len() ==> #[trigger] s[i] != c,
    ensures
        split_acc(s, c, cur, acc) == acc.push(cur + s),
    decreases s.len(),
{
    if s.len() == 0 {
        assert(cur + s =~= cur);
    } else {
        assert forall|i: int| 0 <= i < s.drop_first().len() implies #[trigger] s.drop_first()[i] != c by {
            assert(s.drop_first()[i] == s[i + 1]);
        }
        lemma_split_plain(s.drop_first(), c, cur.push(s[0]), acc);
        assert(cur.push(s[0]) + s.drop_first() =~= cur + s);
    }
}

proof fn lemma_split_at(a: Seq<char>, b: Seq<char>, c: char, cur: Seq<char>, acc: Seq<Seq<char>>)
    requires
        forall|i: int| 0 <= i < a.len() ==> #[trigger] a[i] != c,
    ensures
        split_acc(a + seq![c] + b, c, cur, acc) == split_acc(b, c, Seq::empty(), acc.push(cur + a)),
    decreases a.len(),
{
    let s = a + seq![c] + b;
    if a.len() == 0 {
        assert(s[0] == c);
        assert(s.drop_first() =~= b);
        assert(cur + a =~= cur);
    } else {
        assert(s[0] == a[0]);
        assert(s.drop_first() =~= a.drop_first() + seq![c] + b);
        assert forall|i: int| 0 <= i < a.drop_first().len() implies #[trigger] a.drop_first()[i] != c by {
            assert(a.drop_first()[i] == a[i + 1]);
        }
        lemma_split_at(a.drop_first(), b, c, cur.push(a[0]), acc);
        assert(cur.push(a[0]) + a.drop_first() =~= cur + a);
    }
}

proof fn lemma_number_piece(n: u32)
    ensures
        piece_u32(decimal(n as nat)) == Some(n),
        plain_piece(decimal(n as nat)),
        decimal(n as nat).len() > 0,
{
    lemma_decimal_reads_back(n as nat);
    let d = decimal(n as nat);
    assert(d[0] != '+');
    assert forall|i: int| 0 <= i < d.len() implies #[trigger] d[i] != '-' && d[i] != '_' && d[i] != '.' by {
        assert('0' <= d[i] <= '9');
    }
}

/// The numbers of a version id `1.<minor>` or `1.<minor>.<patch>`.
proof fn lemma_release_numbers(minor: u32, patch: Option<u32>)
    ensures
        infer_java_major(release_id(minor, patch)) == java_for_numbers(
            match patch {
                Some(q) => seq![1u32, minor, q],
                None => seq![1u32, minor],
            },
        ),
{
    reveal_strlit("1.");
    reveal_strlit(".");
    lemma_number_piece(1);
    lemma_number_piece(minor);
    let one = decimal(1);
    assert(one =~= seq!['1']) by {
        assert(one[0] == '0' || one[0] != '0');
    }
    let dm = decimal(minor as nat);
    let v = release_id(minor, patch);
    assert(forall|i: int| 0 <= i < one.len() ==> #[trigger] one[i] != '.');
    assert(forall|i: int| 0 <= i < dm.len() ==> #[trigger] dm[i] != '.');
    match patch {
        Some(q) => {
            lemma_number_piece(q);
            let dq = decimal(q as nat);
            assert(v =~= one + seq!['.'] + (dm + seq!['.'] + dq));
            assert forall|i: int| 0 <= i < v.len() implies #[trigger] v[i] != '-' && v[i] != '_' by {
                if i < 2 {
                } else if i < 2 + dm.len() {
                    assert(v[i] == dm[i - 2]);
                } else if i == 2 + dm.len() {
                } else {
                    assert(v[i] == dq[i - 3 - dm.len()]);
                }
            }
            lemma_prefix_plain(v);
            assert(forall|i: int| 0 <= i < dq.len() ==> #[trigger] dq[i] != '.');
            let e = Seq::<char>::empty();
            let a0 = Seq::<Seq<char>>::empty().push(e + one);
            let a1 = a0.push(e + dm);
            lemma_split_at(one, dm + seq!['.'] + dq, '.', e, Seq::empty());
            lemma_split_at(dm, dq, '.', e, a0);
            lemma_split_plain(dq, '.', e, a1);
            assert(e + one =~= one);
            assert(e + dm =~= dm);
            assert(e + dq =~= dq);
            let parts = split_spec(v, '.');
            assert(parts == a1.push(e + dq));
            assert(parts =~= seq![one, dm, dq]);
            assert(parts.drop_last() =~= seq![one, dm]);
            assert(parts.drop_last().drop_last() =~= seq![one]);
            assert(parts.drop_last().drop_last().drop_last() =~= Seq::<Seq<char>>::empty());
            assert(piece_numbers(parts) == Some(seq![1u32, minor, q])) by {
                assert(piece_numbers(seq![one]) == Some(seq![1u32])) by {
                    assert(seq![one].drop_last() =~= Seq::<Seq<char>>::empty());
                    assert(seq![one].last() == one);
                    assert(piece_numbers(Seq::<Seq<char>>::empty()) == Some(Seq::<u32>::empty()));
                    assert(Seq::<u32>::empty().push(1u32) =~= seq![1u32]);
                }
                assert(seq![1u32].push(minor) =~= seq![1u32, minor]);
                assert(parts.drop_last().last() == dm);
                assert(piece_numbers(parts.drop_last()) == Some(seq![1u32, minor]));
                assert(parts.last() == dq);
                assert(seq![1u32, minor].push(q) =~= seq![1u32, minor, q]);
            }
        },
        None => {
            assert(v =~= one + seq!['.'] + dm);
            assert forall|i: int| 0 <= i < v.len() implies #[trigger] v[i] != '-' && v[i] != '_' by {
                if i >= 2 {
                    assert(v[i] == dm[i - 2]);
                }
            }
            lemma_prefix_plain(v);
            let e = Seq::<char>::empty();
            let a0 = Seq::<Seq<char>>::empty().push(e + one);
            lemma_split_at(one, dm, '.', e, Seq::empty());
            lemma_split_plain(dm, '.', e, a0);
            assert(e + one =~= one);
            assert(e + dm =~= dm);
            let parts = split_spec(v, '.');
            assert(parts == a0.push(e + dm));
            assert(parts =~= seq![one, dm]);
            assert(parts.drop_last() =~= seq![one]);
            assert(parts.drop_last().drop_last() =~= Seq::<Seq<char>>::empty());
            assert(piece_numbers(parts) == Some(seq![1u32, minor])) by {
                assert(piece_numbers(seq![one]) == Some(seq![1u32])) by {
                    assert(seq![one].drop_last() =~= Seq::<Seq<char>>::empty());
                    assert(seq![one].last() == one);
                    assert(piece_numbers(Seq::<Seq<char>>::empty()) == Some(Seq::<u32>::empty()));
                    assert(Seq::<u32>::empty().push(1u32) =~= seq![1u32]);
                }
                assert(seq![1u32].push(minor) =~= seq![1u32, minor]);
            }
        },
    }
}

/// The release id `1.<minor>`, or `1.<minor>.<patch>` when a patch is given.
pub open spec fn release_id(minor: u32, patch: Option<u32>) -> Seq<char> {
    match patch {
        Some(q) => "1."@ + decimal(minor as nat) + "."@ + decimal(q as nat),
        None => "1."@ + decimal(minor as nat),
    }
}

/// Law: the Java major version that a release `1.<minor>` or
/// `1.<minor>.<patch>` needs, as Mojang publishes it: Java 8 up to 1.16,
/// Java 17 from 1.17 to 1.20.4, Java 21 from 1.20.5 through 1.25, Java 25
/// after that.
pub proof fn lemma_java_for_release(minor: u32, patch: Option<u32>)
    ensures
        minor <= 16 ==> infer_java_major(release_id(minor, patch)) == Some(8u32),
        17 <= minor <= 19 ==> infer_java_major(release_id(minor, patch)) == Some(17u32),
        (minor == 20 && (patch is None || patch->0 <= 4)) ==> infer_java_major(release_id(minor, patch))
            == Some(17u32),
        (minor == 20 && patch is Some && patch->0 >= 5) ==> infer_java_major(release_id(minor, patch))
            == Some(21u32),
        21 <= minor <= 25 ==> infer_java_major(release_id(minor, patch)) == Some(21u32),
        minor >= 26 ==> infer_java_major(release_id(minor, patch)) == Some(25u32),
{
    lemma_release_numbers(minor, patch);
}

/// Law: a release's metadata without a Java entry needs the Java that its
/// id calls for (see `lemma_java_for_release`); for 1.21 to 1.25 that is
/// Java 21.
pub proof fn lemma_required_java_of_release(v: MinecraftVersionJson, minor: u32, patch: Option<u32>)
    requires
        v.java_version is None,
        v.id is Some,
        v.id->0@ == release_id(minor, patch),
    ensures
        21 <= minor <= 25 ==> required_java_spec(v) == 21,
        minor <= 16 ==> required_java_spec(v) == 8,
        17 <= minor <= 19 ==> required_java_spec(v) == 17,
        minor >= 26 ==> required_java_spec(v) == 25,
{
    lemma_java_for_release(minor, patch);
}

/// The Java major version a version needs: from its metadata, else
/// inferred from its id, else 8.
pub open spec fn required_java_spec(v: MinecraftVersionJson) -> u32 {
    match v.java_version {
        Some(j) if j.major_version is Some => j.major_version->0,
        _ => match v.id {
            Some(id) => match infer_java_major(id@) {
                Some(m) => m,
                None => 8,
            },
            None => 8,
        },
    }
}

impl MinecraftVersionJson {
    /// The Java major version this version needs.
    pub fn required_java_major(&self) -> (m: u32)
        ensures
            m == required_java_spec(*self),
    {
        match &self.java_version {
            Some(j) if j.major_version.is_some() => j.major_version.unwrap(),
            _ => match &self.id {
                Some(id) => {
                    let c = chars_of(id.as_str());
                    match infer_java_major_of(c.as_slice()) {
                        Some(m) => m,
                        None => 8,
                    }
                },
                None => 8,
            },
        }
    }
}

/// The asset index id: the asset index entry's id, else `assets`.
pub open spec fn assets_index_spec(v: MinecraftVersionJson) -> Option<Seq<char>> {
    match v.asset_index {
        Some(a) if a.id is Some => Some(a.id->0@),
        _ => v.assets.deep_view(),
    }
}

pub(crate) fn assets_index_of(v: &MinecraftVersionJson) -> (r: Option<String>)
    ensures
        r.deep_view() == assets_index_spec(*v),
{
    match &v.asset_index {
        Some(a) if a.id.is_some() => clone_opt(&a.id),
        _ => clone_opt(&v.assets),
    }
}

/// A copy of a list of strings.
pub(crate) fn clone_strings(v: &Vec<String>) -> (r: Vec<String>)
    ensures
        r@ == v@,
{
    let mut r: Vec<String> = Vec::new();
    let mut i: usize = 0;
    while i < v.len()
        invariant
            i <= v.len(),
            r@ == v@.take(i as int),
        decreases v.len() - i,
    {
        r.push(v[i].clone());
        assert(r@ =~= v@.take(i + 1));
        i += 1;
    }
    assert(v@.take(v.len() as int) =~= v@);
    r
}

impl MinecraftVersionJson {
    /// The metadata a launch needs: id (empty when absent), main class,
    /// class-path libraries for the context and asset index id.
    pub fn to_metadata(&self, game_directory: &str, context: &LaunchContext) -> (m: VersionMetadata)
        ensures
            m.id@ == (match self.id {
                Some(i) => i@,
                None => Seq::empty(),
            }),
            m.main_class == self.main_class,
            m.libraries@.map_values(|l: Library| library_view(l)) == effective_spec(
                self.libraries@,
                game_directory@,
                *context,
            ),
            m.assets_index.deep_view() == assets_index_spec(*self),
    {
        VersionMetadata {
            id: match &self.id {
                Some(i) => i.clone(),
                None => String::new(),
            },
            main_class: clone_opt(&self.main_class),
            libraries: self.effective_libraries_with_context(game_directory, context),
            assets_index: assets_index_of(self),
        }
    }
}

/// The launch profile of a configuration: player `Player`, version
/// `latest`, directory `.minecraft` and 2048 MB where the configuration
/// sets none; the configured Java only when custom Java is switched on.
pub open spec fn profile_of(p: LaunchProfile, c: LauncherConfig) -> bool {
    &&& p.username@ == (match c.username {
        Some(u) => u@,
        None => "Player"@,
    })
    &&& p.version_id@ == (match c.selected_version {
        Some(v) => v@,
        None => "latest"@,
    })
    &&& p.game_directory@ == (match c.game_directory {
        Some(g) => g@,
        None => ".minecraft"@,
    })
    &&& p.java_path == (if c.use_custom_java {
        c.java_path
    } else {
        None
    })
    &&& p.memory_mb == (match c.memory_mb {
        Some(m) => m,
        None => 2048,
    })
    &&& p.jvm_args@ == c.extra_jvm_args@
    &&& p.game_args@ == c.extra_game_args@
}

/// `-Xmx<memory>M`.
pub open spec fn xmx_arg(memory_mb: u32) -> Seq<char> {
    "-Xmx"@ + decimal(memory_mb as nat) + "M"@
}

pub(crate) fn xmx(memory_mb: u32) -> (s: String)
    ensures
        s@ == xmx_arg(memory_mb),
{
    let mut c = chars_of("-Xmx");
    let d = format_decimal(memory_mb as u64);
    push_all(&mut c, d.as_slice());
    let m = chars_of("M");
    push_all(&mut c, m.as_slice());
    string_of(c.as_slice())
}

/// The plain launch arguments of a profile.
pub open spec fn plain_launch_args(p: LaunchProfile, main_class: Option<String>) -> Seq<Seq<char>> {
    seq![xmx_arg(p.memory_mb)] + p.jvm_args.deep_view() + (match main_class {
        Some(m) => seq![m@],
        None => Seq::empty(),
    }) + seq![
        "--username"@,
        p.username@,
        "--version"@,
        p.version_id@,
        "--gameDir"@,
        p.game_directory@,
    ] + p.game_args.deep_view()
}

/// Appends a string.
pub(crate) fn push_str(out: &mut Vec<String>, s: String)
    ensures
        final(out).deep_view() == old(out).deep_view().push(s@),
{
    let ghost prev = out.deep_view();
    out.push(s);
    assert(out.deep_view() =~= prev.push(s@));
}

/// Appends copies of strings.
pub(crate) fn push_strings(out: &mut Vec<String>, v: &Vec<String>)
    ensures
        final(out).deep_view() == old(out).deep_view() + v.deep_view(),
{
    let ghost base = out.deep_view();
    let mut i: usize = 0;
    while i < v.len()
        invariant
            i <= v.len(),
            out.deep_view() == base + v.deep_view().take(i as int),
        decreases v.len() - i,
    {
        let ghost prev = out.deep_view();
        out.push(v[i].clone());
        assert(v.deep_view()[i as int] == v@[i as int]@);
        assert(out.deep_view() =~= prev.push(v@[i as int]@));
        assert(out.deep_view() =~= base + v.deep_view().take(i + 1));
        i += 1;
    }
    assert(v.deep_view().take(v.len() as int) =~= v.deep_view());
}

impl LaunchProfile {
    /// The launch profile for a configuration.
    pub fn from_config(config: &LauncherConfig) -> (p: Self)
        ensures
            profile_of(p, *config),
    {
        LaunchProfile {
            username: match &config.username {
                Some(u) => u.clone(),
                None => String::from_str("Player"),
            },
            version_id: match &config.selected_version {
                Some(v) => v.clone(),
                None => String::from_str("latest"),
            },
            game_directory: match &config.game_directory {
                Some(g) => g.clone(),
                None => String::from_str(".minecraft"),
            },
            java_path: if config.use_custom_java {
                clone_opt(&config.java_path)
            } else {
                None
            },
            memory_mb: match config.memory_mb {
                Some(m) => m,
                None => 2048,
            },
            jvm_args: clone_strings(&config.extra_jvm_args),
            game_args: clone_strings(&config.extra_game_args),
        }
    }

    /// Simple launch arguments from version metadata: heap size, the
    /// profile's JVM arguments, the main class, player, version and game
    /// directory, then the profile's game arguments.
    pub fn launch_arguments(&self, metadata: &VersionMetadata) -> (args: Vec<String>)
        ensures
            args.deep_view() == plain_launch_args(*self, metadata.main_class),
    {
        let mut args: Vec<String> = Vec::new();
        push_str(&mut args, xmx(self.memory_mb));
        push_strings(&mut args, &self.jvm_args);
        let ghost a1 = args.deep_view();
        match &metadata.main_class {
            Some(m) => push_str(&mut args, m.clone()),
            None => {},
        }
        let ghost a2 = args.deep_view();
        push_str(&mut args, String::from_str("--username"));
        push_str(&mut args, self.username.clone());
        push_str(&mut args, String::from_str("--version"));
        push_str(&mut args, self.version_id.clone());
        push_str(&mut args, String::from_str("--gameDir"));
        push_str(&mut args, self.game_directory.clone());
        let ghost a3 = args.deep_view();
        push_strings(&mut args, &self.game_args);
        assert(a3 =~= a2 + seq![
            "--username"@,
            self.username@,
            "--version"@,
            self.version_id@,
            "--gameDir"@,
            self.game_directory@,
        ]);
        assert(args.deep_view() =~= plain_launch_args(*self, metadata.main_class));
        args
    }
}


/// Mojang's name for the system Rust names `os` (`std::env::consts::OS`).
pub open spec fn mojang_os_name(os: Seq<char>) -> Seq<char> {
    if os == "windows"@ {
        "windows"@
    } else if os == "macos"@ {
        "osx"@
    } else if os == "linux"@ {
        "linux"@
    } else {
        "unknown"@
    }
}

impl LaunchContext {
    /// The context of a machine that Rust describes by `os` and `arch`
    /// (`std::env::consts`): no demo, no custom resolution, no quick play,
    /// no custom features.
    pub fn for_host(os: &str, arch: &str) -> (c: Self)
        ensures
            c.os@ == mojang_os_name(os@),
            c.arch@ == arch@,
            !c.demo_mode,
            c.resolution is None,
            !c.quick_play_support,
            !c.quick_play_singleplayer,
            !c.quick_play_multiplayer,
            !c.quick_play_realms,
            c.custom_features@.len() == 0,
    {
        let o = chars_of(os);
        let windows = chars_of("windows");
        let macos = chars_of("macos");
        let linux = chars_of("linux");
        let name = if chars_eq(o.as_slice(), windows.as_slice()) {
            String::from_str("windows")
        } else if chars_eq(o.as_slice(), macos.as_slice()) {
            String::from_str("osx")
        } else if chars_eq(o.as_slice(), linux.as_slice()) {
            String::from_str("linux")
        } else {
            String::from_str("unknown")
        };
        LaunchContext {
            os: name,
            arch: String::from_str(arch),
            demo_mode: false,
            resolution: None,
            quick_play_support: false,
            quick_play_singleplayer: false,
            quick_play_multiplayer: false,
            quick_play_realms: false,
            custom_features: Vec::new(),
        }
    }
}


/// Law: a rule that matches, placed after any other rules, decides alone:
/// a matching disallow overrides every earlier allow, and a matching allow
/// every earlier disallow.
pub proof fn lemma_last_matching_rule_decides(rules: Seq<Rule>, last: Rule, ctx: LaunchContext)
    requires
        rule_matches(last, ctx),
    ensures
        rules_allow(rules.push(last), ctx) == (last.action == RuleAction::Allow),
{
    assert(rules.push(last).last() == last);
}

} // verus!
