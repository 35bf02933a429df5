//! Native libraries: which natives archives a version unpacks before the
//! game starts, and where each entry of such an archive may be written.
use vstd::prelude::*;

use crate::command::{launch_version_id, natives_dir, natives_dir_path, version_id_of};
use crate::minecraft::{
    classifier_path, classifier_path_defined, classifier_path_ok, classifier_path_spec, extract_classifier,
    library_classifiers, lookup_pair, native_classifier_for_context, pair_lookup, rules_allow,
    rules_apply_with_context, LaunchContext, LaunchProfile, LibraryJson, MinecraftVersionJson,
};
use crate::text::{
    chars_eq, chars_of, join_chars, join_path, join_path_str, join_with, matches_at, path_join, replace_char,
    replace_char_spec, split_chars, split_spec, string_of, views,
};

verus! {

/// A natives archive to unpack, with the entry prefixes its library
/// excludes from unpacking.
#[derive(Debug, Clone, PartialEq, Eq)]
pub struct NativeArchive {
    pub path: String,
    pub exclude: Vec<String>,
}

/// The path its classifier entry gives a library's natives archive.
pub open spec fn listed_archive_path(lib: LibraryJson, classifier: Seq<char>) -> Option<Seq<char>> {
    match library_classifiers(lib) {
        Some(cl) => match pair_lookup(cl, classifier) {
            Some(info) => match info.path {
                Some(p) => Some(p@),
                None => None,
            },
            None => None,
        },
        None => None,
    }
}

/// The path of a library's natives archive under the libraries directory:
/// the one its classifier entry gives, else the Maven path with the
/// classifier.
pub open spec fn native_archive_rel(lib: LibraryJson, ctx: LaunchContext) -> Option<Seq<char>> {
    match extract_classifier(lib, ctx) {
        Some(c) => Some(
            match listed_archive_path(lib, c) {
                Some(p) => p,
                None => classifier_path_spec(lib.name@, c),
            },
        ),
        None => None,
    }
}

/// Whether the natives archive path of a library can be formed.
pub open spec fn native_archive_defined(lib: LibraryJson, ctx: LaunchContext) -> bool {
    match extract_classifier(lib, ctx) {
        Some(c) => listed_archive_path(lib, c) is Some || classifier_path_defined(lib.name@),
        None => true,
    }
}

/// Whether the natives archive paths of all libraries the rules allow can
/// be formed.
pub open spec fn native_archives_ok(libs: Seq<LibraryJson>, ctx: LaunchContext) -> bool {
    forall|i: int|
        0 <= i < libs.len() && rules_allow(#[trigger] libs[i].rules@, ctx) ==> native_archive_defined(libs[i], ctx)
}

/// The excluded prefixes of a library.
pub open spec fn excluded_prefixes(lib: LibraryJson) -> Seq<Seq<char>> {
    match lib.extract {
        Some(e) => e.exclude.deep_view(),
        None => Seq::empty(),
    }
}

/// The natives archives of the libraries the rules allow, in order, as
/// full paths under `libraries_dir` with their excluded prefixes.
pub open spec fn native_archives_spec(libs: Seq<LibraryJson>, libraries_dir: Seq<char>, ctx: LaunchContext) -> Seq<
    (Seq<char>, Seq<Seq<char>>),
>
    decreases libs.len(),
{
    if libs.len() == 0 {
        Seq::empty()
    } else {
        let prev = native_archives_spec(libs.drop_last(), libraries_dir, ctx);
        let lib = libs.last();
        if rules_allow(lib.rules@, ctx) {
            match native_archive_rel(lib, ctx) {
                Some(p) => prev.push((path_join(libraries_dir, p), excluded_prefixes(lib))),
                None => prev,
            }
        } else {
            prev
        }
    }
}

/// An archive as its path and excluded prefixes.
pub open spec fn archive_view(a: NativeArchive) -> (Seq<char>, Seq<Seq<char>>) {
    (a.path@, a.exclude.deep_view())
}

fn copy_strings(v: &Vec<String>) -> (r: Vec<String>)
    ensures
        r.deep_view() == v.deep_view(),
{
    let mut r: Vec<String> = Vec::new();
    let mut i: usize = 0;
    while i < v.len()
        invariant
            i <= v.len(),
            r.deep_view() == v.deep_view().take(i as int),
        decreases v.len() - i,
    {
        let ghost prev = r.deep_view();
        let s = v[i].clone();
        let ghost sv = s@;
        r.push(s);
        assert(r.deep_view() =~= prev.push(sv));
        assert(r.deep_view() =~= v.deep_view().take(i + 1));
        i += 1;
    }
    assert(v.deep_view().take(v.len() as int) =~= v.deep_view());
    r
}

/// The natives archive of one allowed library, if it has one.
fn native_archive(lib: &LibraryJson, libraries_dir: &[char], context: &LaunchContext) -> (r: Option<
    NativeArchive,
>)
    requires
        native_archive_defined(*lib, *context),
    ensures
        match native_archive_rel(*lib, *context) {
            Some(p) => r is Some && archive_view(r->0) == (path_join(libraries_dir@, p), excluded_prefixes(*lib)),
            None => r is None,
        },
{
    let classifier = match native_classifier_for_context(lib, context) {
        Some(c) => c,
        None => {
            return None;
        },
    };
    assert(classifier.deep_view() =~= classifier@);
    let listed: Option<Vec<char>> = match &lib.downloads {
        Some(d) => match &d.classifiers {
            Some(cl) => match lookup_pair(cl, classifier.as_slice()) {
                Some(k) => match &cl[k].1.path {
                    Some(p) => Some(chars_of(p.as_str())),
                    None => None,
                },
                None => None,
            },
            None => None,
        },
        None => None,
    };
    assert(listed.deep_view() == listed_archive_path(*lib, classifier@));
    let rel = match listed {
        Some(p) => p,
        None => {
            let n = chars_of(lib.name.as_str());
            classifier_path(n.as_slice(), classifier.as_slice())
        },
    };
    let full = join_path(libraries_dir, rel.as_slice());
    let exclude = match &lib.extract {
        Some(e) => copy_strings(&e.exclude),
        None => Vec::new(),
    };
    assert(exclude.deep_view() =~= excluded_prefixes(*lib));
    Some(NativeArchive { path: string_of(full.as_slice()), exclude })
}

/// Whether the natives archive paths of all allowed libraries of a version
/// can be formed, so that `native_archives` may be called.
pub fn native_archive_paths_defined(version: &MinecraftVersionJson, context: &LaunchContext) -> (b: bool)
    ensures
        b == native_archives_ok(version.libraries@, *context),
{
    let libs = &version.libraries;
    let mut i: usize = 0;
    while i < libs.len()
        invariant
            i <= libs.len(),
            libs@ == version.libraries@,
            forall|j: int|
                0 <= j < i && rules_allow(#[trigger] libs@[j].rules@, *context) ==> native_archive_defined(
                    libs@[j],
                    *context,
                ),
        decreases libs.len() - i,
    {
        let lib = &libs[i];
        if rules_apply_with_context(&lib.rules, context) {
            let ok = match native_classifier_for_context(lib, context) {
                Some(c) => {
                    assert(c.deep_view() =~= c@);
                    let listed = match &lib.downloads {
                        Some(d) => match &d.classifiers {
                            Some(cl) => match lookup_pair(cl, c.as_slice()) {
                                Some(k) => cl[k].1.path.is_some(),
                                None => false,
                            },
                            None => false,
                        },
                        None => false,
                    };
                    assert(listed == (listed_archive_path(*lib, c@) is Some));
                    listed || classifier_path_ok(lib.name.as_str())
                },
                None => true,
            };
            if !ok {
                assert(rules_allow(libs@[i as int].rules@, *context));
                assert(!native_archive_defined(libs@[i as int], *context));
                return false;
            }
        }
        i += 1;
    }
    true
}

impl MinecraftVersionJson {
    /// The directory natives are unpacked into:
    /// `<game>/versions/<version>/natives`.
    pub fn natives_directory(&self, profile: &LaunchProfile) -> (dir: String)
        ensures
            dir@ == natives_dir_path(profile.game_directory@, launch_version_id(*self, *profile)),
    {
        let gd = chars_of(profile.game_directory.as_str());
        let id = version_id_of(self, profile);
        let d = natives_dir(gd.as_slice(), id.as_slice());
        string_of(d.as_slice())
    }

    /// The natives archives to unpack before a launch, in library order:
    /// for each library the rules allow in the context that has natives for
    /// it, the archive under `<game>/libraries`.
    pub fn native_archives(&self, profile: &LaunchProfile, context: &LaunchContext) -> (archives: Vec<NativeArchive>)
        requires
            native_archives_ok(self.libraries@, *context),
        ensures
            archives@.map_values(|a: NativeArchive| archive_view(a)) == native_archives_spec(
                self.libraries@,
                path_join(profile.game_directory@, "libraries"@),
                *context,
            ),
    {
        let gd = chars_of(profile.game_directory.as_str());
        let dir = join_path_str(gd.as_slice(), "libraries");
        let libs = &self.libraries;
        let mut out: Vec<NativeArchive> = Vec::new();
        let mut i: usize = 0;
        assert(libs@.take(0) =~= Seq::<LibraryJson>::empty());
        while i < libs.len()
            invariant
                i <= libs.len(),
                libs@ == self.libraries@,
                dir@ == path_join(profile.game_directory@, "libraries"@),
                native_archives_ok(libs@, *context),
                out@.map_values(|a: NativeArchive| archive_view(a)) == native_archives_spec(
                    libs@.take(i as int),
                    dir@,
                    *context,
                ),
            decreases libs.len() - i,
        {
            let lib = &libs[i];
            assert(libs@.take(i + 1).drop_last() =~= libs@.take(i as int));
            assert(libs@.take(i + 1).last() == libs@[i as int]);
            let ghost prev = out@;
            if rules_apply_with_context(&lib.rules, context) {
                match native_archive(lib, dir.as_slice(), context) {
                    Some(a) => {
                        let ghost av = archive_view(a);
                        out.push(a);
                        assert(out@.map_values(|a: NativeArchive| archive_view(a)) =~= prev.map_values(
                            |a: NativeArchive| archive_view(a),
                        ).push(av));
                    },
                    None => {},
                }
            }
            assert(out@.map_values(|a: NativeArchive| archive_view(a)) =~= native_archives_spec(
                libs@.take(i + 1),
                dir@,
                *context,
            ));
            i += 1;
        }
        assert(libs@.take(libs.len() as int) =~= libs@);
        out
    }
}

/// The parts of a relative path that name something: the pieces between
/// slashes other than empty ones and `.`.
pub open spec fn normal_parts(parts: Seq<Seq<char>>) -> Seq<Seq<char>>
    decreases parts.len(),
{
    if parts.len() == 0 {
        Seq::empty()
    } else {
        let prev = normal_parts(parts.drop_last());
        let p = parts.last();
        if p.len() == 0 || p == "."@ {
            prev
        } else {
            prev.push(p)
        }
    }
}

/// Where a zip entry named `name` may be written, relative to the target
/// directory: nowhere when the name is absolute, starts with `.`, climbs
/// with `..` or names nothing; else its parts joined by slashes, as
/// `Path::components` on Unix reads them.
pub open spec fn safe_entry_spec(name: Seq<char>) -> Option<Seq<char>> {
    let parts = split_spec(name, '/');
    let normal = normal_parts(parts);
    if name.len() > 0 && name[0] == '/' {
        None
    } else if parts[0] == "."@ {
        None
    } else if parts.contains(".."@) {
        None
    } else if normal.len() == 0 {
        None
    } else {
        Some(join_with(normal, "/"@))
    }
}

proof fn lemma_split_nonempty(s: Seq<char>, c: char, cur: Seq<char>, acc: Seq<Seq<char>>)
    ensures
        crate::text::split_acc(s, c, cur, acc).len() > acc.len(),
        crate::text::split_acc(s, c, cur, acc).take(acc.len() as int) == acc,
    decreases s.len(),
{
    if s.len() == 0 {
        assert(acc.push(cur).take(acc.len() as int) =~= acc);
    } else if s[0] == c {
        lemma_split_nonempty(s.drop_first(), c, Seq::empty(), acc.push(cur));
        let r = crate::text::split_acc(s.drop_first(), c, Seq::empty(), acc.push(cur));
        assert(r.take(acc.len() as int) =~= r.take(acc.len() + 1int).take(acc.len() as int));
        assert(acc.push(cur).take(acc.len() as int) =~= acc);
    } else {
        lemma_split_nonempty(s.drop_first(), c, cur.push(s[0]), acc);
    }
}

/// The place a zip entry named `name` may be written to, relative to the
/// target directory (see `safe_entry_spec`).
pub fn safe_zip_entry_path(name: &str) -> (r: Option<String>)
    ensures
        r.deep_view() == safe_entry_spec(name@),
{
    let c = chars_of(name);
    let parts = split_chars(c.as_slice(), '/');
    let ghost pv = views(parts@);
    proof {
        lemma_split_nonempty(name@, '/', Seq::empty(), Seq::empty());
    }
    if c.len() > 0 && c[0] == '/' {
        return None;
    }
    let dot = chars_of(".");
    let dotdot = chars_of("..");
    assert(pv[0] == parts@[0]@);
    if chars_eq(parts[0].as_slice(), dot.as_slice()) {
        return None;
    }
    let mut normal: Vec<Vec<char>> = Vec::new();
    let mut i: usize = 0;
    assert(pv.take(0) =~= Seq::<Seq<char>>::empty());
    while i < parts.len()
        invariant
            i <= parts.len(),
            pv == views(parts@),
            pv == split_spec(name@, '/'),
            pv.len() > 0,
            pv[0] != "."@,
            !(name@.len() > 0 && name@[0] == '/'),
            dot@ == "."@,
            dotdot@ == ".."@,
            forall|j: int| 0 <= j < i ==> pv[j] != ".."@,
            views(normal@) == normal_parts(pv.take(i as int)),
        decreases parts.len() - i,
    {
        assert(pv[i as int] == parts@[i as int]@);
        assert(pv.take(i + 1).drop_last() =~= pv.take(i as int));
        assert(pv.take(i + 1).last() == pv[i as int]);
        if chars_eq(parts[i].as_slice(), dotdot.as_slice()) {
            assert(pv.contains(".."@));
            return None;
        }
        let is_dot = chars_eq(parts[i].as_slice(), dot.as_slice());
        if parts[i].len() > 0 && !is_dot {
            let ghost prev = views(normal@);
            let p = crate::text::copy_chars(parts[i].as_slice());
            normal.push(p);
            assert(views(normal@) =~= prev.push(pv[i as int]));
        }
        i += 1;
    }
    assert(pv.take(parts.len() as int) =~= pv);
    assert(!pv.contains(".."@));
    if normal.len() == 0 {
        return None;
    }
    let slash = chars_of("/");
    let joined = join_chars(&normal, slash.as_slice());
    Some(string_of(joined.as_slice()))
}

/// Whether an entry name starts with one of the excluded prefixes.
pub open spec fn is_excluded(name: Seq<char>, exclude: Seq<Seq<char>>) -> bool {
    exists|i: int| 0 <= i < exclude.len() && #[trigger] exclude[i].is_prefix_of(name)
}

/// Where an archive entry is written when natives are unpacked into
/// `natives_dir`: the entry's name with backslashes read as slashes, made
/// safe (see `safe_entry_spec`), below `natives_dir`; nothing for
/// directories, excluded entries and unsafe names.
pub open spec fn entry_destination(raw_name: Seq<char>, is_dir: bool, natives_dir: Seq<char>, exclude: Seq<
    Seq<char>,
>) -> Option<Seq<char>> {
    let name = replace_char_spec(raw_name, '\\', '/');
    match safe_entry_spec(name) {
        Some(rel) => if is_dir || is_excluded(name, exclude) {
            None
        } else {
            Some(path_join(natives_dir, rel))
        },
        None => None,
    }
}

/// Where an entry of a natives archive is written (see
/// `entry_destination`); `is_dir` says whether the archive marks the entry
/// as a directory.
pub fn native_entry_destination(raw_name: &str, is_dir: bool, natives_dir: &str, exclude: &Vec<String>) -> (r: Option<
    String,
>)
    ensures
        r.deep_view() == entry_destination(raw_name@, is_dir, natives_dir@, exclude.deep_view()),
{
    let raw = chars_of(raw_name);
    let name_chars = replace_char(raw.as_slice(), '\\', '/');
    let name = string_of(name_chars.as_slice());
    let mut excluded = false;
    let mut i: usize = 0;
    while i < exclude.len()
        invariant
            i <= exclude.len(),
            name_chars@ == replace_char_spec(raw_name@, '\\', '/'),
            excluded == (exists|j: int| 0 <= j < i && #[trigger] exclude.deep_view()[j].is_prefix_of(name_chars@)),
        decreases exclude.len() - i,
    {
        let p = chars_of(exclude[i].as_str());
        let m = matches_at(name_chars.as_slice(), 0, p.as_slice());
        assert(name_chars@.skip(0) =~= name_chars@);
        assert(exclude.deep_view()[i as int] == p@);
        assert(m == p@.is_prefix_of(name_chars@));
        excluded = excluded || m;
        i += 1;
    }
    match safe_zip_entry_path(name.as_str()) {
        Some(rel) => {
            if is_dir || excluded {
                None
            } else {
                let dir = chars_of(natives_dir);
                let relc = chars_of(rel.as_str());
                let full = join_path(dir.as_slice(), relc.as_slice());
                Some(string_of(full.as_slice()))
            }
        },
        None => None,
    }
}


/// A part of a path that names something below a directory: not empty,
/// not `.` or `..`, without a slash.
pub open spec fn plain_part(p: Seq<char>) -> bool {
    p.len() > 0 && p != "."@ && p != ".."@ && !p.contains('/')
}

/// No piece of a split holds the separator.
pub open spec fn pieces_without(ps: Seq<Seq<char>>, c: char) -> bool {
    forall|i: int| 0 <= i < ps.len() ==> !(#[trigger] ps[i]).contains(c)
}

proof fn lemma_push_without(ps: Seq<Seq<char>>, p: Seq<char>, c: char)
    requires
        pieces_without(ps, c),
        !p.contains(c),
    ensures
        pieces_without(ps.push(p), c),
{
    assert forall|i: int| 0 <= i < ps.push(p).len() implies !(#[trigger] ps.push(p)[i]).contains(c) by {
        if i < ps.len() {
            assert(ps.push(p)[i] == ps[i]);
        }
    }
}

proof fn lemma_split_parts_have_no_separator(s: Seq<char>, c: char, cur: Seq<char>, acc: Seq<Seq<char>>)
    requires
        !cur.contains(c),
        pieces_without(acc, c),
    ensures
        pieces_without(crate::text::split_acc(s, c, cur, acc), c),
    decreases s.len(),
{
    let r = crate::text::split_acc(s, c, cur, acc);
    if s.len() == 0 {
        assert(r == acc.push(cur));
        lemma_push_without(acc, cur, c);
    } else if s[0] == c {
        assert(r == crate::text::split_acc(s.drop_first(), c, Seq::empty(), acc.push(cur)));
        lemma_push_without(acc, cur, c);
        assert(!Seq::<char>::empty().contains(c));
        lemma_split_parts_have_no_separator(s.drop_first(), c, Seq::empty(), acc.push(cur));
    } else {
        assert(r == crate::text::split_acc(s.drop_first(), c, cur.push(s[0]), acc));
        assert(!cur.push(s[0]).contains(c)) by {
            if cur.push(s[0]).contains(c) {
                let j = choose|j: int| 0 <= j < cur.push(s[0]).len() && cur.push(s[0])[j] == c;
                if j < cur.len() {
                    assert(cur[j] == c);
                }
            }
        }
        lemma_split_parts_have_no_separator(s.drop_first(), c, cur.push(s[0]), acc);
    }
}

proof fn lemma_normal_parts_plain(ps: Seq<Seq<char>>)
    requires
        !ps.contains(".."@),
        pieces_without(ps, '/'),
    ensures
        forall|i: int| 0 <= i < normal_parts(ps).len() ==> plain_part(#[trigger] normal_parts(ps)[i]),
    decreases ps.len(),
{
    if ps.len() > 0 {
        let init = ps.drop_last();
        assert(!init.contains(".."@)) by {
            if init.contains(".."@) {
                let j = choose|j: int| 0 <= j < init.len() && init[j] == ".."@;
                assert(ps[j] == ".."@);
            }
        }
        assert(pieces_without(init, '/')) by {
            assert forall|i: int| 0 <= i < init.len() implies !(#[trigger] init[i]).contains('/') by {
                assert(init[i] == ps[i]);
            }
        }
        lemma_normal_parts_plain(init);
        assert(ps.last() != ".."@) by {
            assert(ps[ps.len() - 1] == ps.last());
        }
        assert(!ps.last().contains('/')) by {
            assert(ps[ps.len() - 1] == ps.last());
        }
        let prev = normal_parts(init);
        let p = ps.last();
        if !(p.len() == 0 || p == "."@) {
            assert(normal_parts(ps) == prev.push(p));
            assert forall|i: int| 0 <= i < normal_parts(ps).len() implies plain_part(#[trigger] normal_parts(ps)[i]) by {
                if i < prev.len() {
                    assert(normal_parts(ps)[i] == prev[i]);
                }
            }
        }
    }
}

proof fn lemma_join_starts_with_first(ps: Seq<Seq<char>>, sep: Seq<char>)
    requires
        ps.len() > 0,
        ps[0].len() > 0,
    ensures
        join_with(ps, sep).len() > 0,
        join_with(ps, sep)[0] == ps[0][0],
    decreases ps.len(),
{
    if ps.len() > 1 {
        lemma_join_starts_with_first(ps.drop_last(), sep);
        assert(ps.drop_last()[0] == ps[0]);
    }
}

/// Law: an archive entry is never written outside the natives directory:
/// where it is written at all, its destination is the directory, a slash,
/// and parts joined by slashes, none of them empty, `.` or `..`.
pub proof fn lemma_entry_stays_inside(raw_name: Seq<char>, is_dir: bool, natives_dir: Seq<char>, exclude: Seq<Seq<char>>)
    requires
        natives_dir.len() > 0,
        natives_dir.last() != '/',
    ensures
        entry_destination(raw_name, is_dir, natives_dir, exclude) matches Some(dest) ==> exists|parts: Seq<Seq<char>>|
            {
                &&& parts.len() > 0
                &&& forall|i: int| 0 <= i < parts.len() ==> plain_part(#[trigger] parts[i])
                &&& dest == natives_dir + seq!['/'] + join_with(parts, "/"@)
            },
{
    let name = replace_char_spec(raw_name, '\\', '/');
    if let Some(dest) = entry_destination(raw_name, is_dir, natives_dir, exclude) {
        let parts = split_spec(name, '/');
        let normal = normal_parts(parts);
        lemma_split_parts_have_no_separator(name, '/', Seq::empty(), Seq::empty());
        assert(!Seq::<char>::empty().contains('/'));
        lemma_normal_parts_plain(parts);
        let rel = join_with(normal, "/"@);
        assert(plain_part(normal[0]));
        lemma_join_starts_with_first(normal, "/"@);
        assert(rel[0] != '/') by {
            assert(normal[0][0] == rel[0]);
            if rel[0] == '/' {
                assert(normal[0].contains('/'));
            }
        }
        assert(dest == path_join(natives_dir, rel));
        assert(dest == natives_dir + seq!['/'] + rel);
    }
}


/// A split has at least one piece.
pub proof fn lemma_split_has_a_piece(s: Seq<char>, c: char)
    ensures
        split_spec(s, c).len() > 0,
{
    lemma_split_nonempty(s, c, Seq::empty(), Seq::empty());
}

} // verus!
