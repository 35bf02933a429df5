//! Planning downloads from version metadata: jobs, their destinations and
//! integrity data, duplicate removal, retries and integrity checks.
use vstd::prelude::*;

use crate::config::LauncherConfig;
use crate::minecraft::{
    artifact_info, classifier_path, classifier_path_defined, classifier_path_spec, clone_opt,
    library_classifiers, listed_classifier, listed_native_classifier, logging_config_path,
    logging_config_path_spec, lookup_pair, maven_path, os_native_classifier,
    pair_lookup, rules_allow, rules_apply_with_context, version_json_path_spec, DownloadInfo,
    LaunchContext, LibraryJson, MinecraftVersionJson,
};
use crate::text::{
    ascii_lowercase, byte_prefix, chars_eq, chars_of, copy_chars, decimal, eq_ignore_ascii_case,
    format_decimal, join_path, join_path_str, path_join, push_all, string_of, take_bytes,
};

verus! {

/// Mojang's list of versions.
pub const VERSION_MANIFEST_URL: &'static str =
    "https://piston-meta.mojang.com/mc/game/version_manifest_v2.json";

/// Where libraries without their own URL are downloaded from.
pub const LIBRARIES_BASE_URL: &'static str = "https://libraries.minecraft.net/";

/// Where asset objects are downloaded from.
pub const ASSET_OBJECTS_BASE_URL: &'static str = "https://resources.download.minecraft.net/";

/// How often a download is tried before it fails.
pub const MAX_DOWNLOAD_ATTEMPTS: usize = 5;

/// What a download is for.
#[derive(Debug, Clone, Copy, PartialEq, Eq)]
pub enum DownloadKind {
    VersionJson,
    ClientJar,
    Library,
    NativeLibrary,
    AssetIndex,
    Asset,
    LogConfig,
}

/// One file to download, with the integrity data to check it against.
#[derive(Debug, Clone, PartialEq, Eq)]
pub struct DownloadJob {
    pub kind: DownloadKind,
    pub url: String,
    pub destination: String,
    pub expected_sha1: Option<String>,
    pub expected_size: Option<u64>,
    pub label: String,
}

/// One entry of the version manifest.
#[derive(Debug, Clone, PartialEq, Eq)]
pub struct ManifestVersion {
    pub id: String,
    pub kind: String,
    pub url: String,
    pub sha1: Option<String>,
}

/// The downloads of one library: its main artifact and its natives.
#[derive(Debug, Clone, PartialEq, Eq)]
pub struct ResolvedLibrary {
    pub artifact: Option<DownloadJob>,
    pub native: Option<DownloadJob>,
}

/// Progress reports of a download run.
#[derive(Debug, Clone, PartialEq, Eq)]
pub enum DownloadEvent {
    Started { total: usize },
    JobStarted { index: usize, label: String },
    JobProgress { index: usize, downloaded: u64, total: Option<u64> },
    JobFinished { index: usize, destination: String },
    JobFailed { index: usize, label: String, error: String },
    Finished { succeeded: usize, failed: usize },
}

/// How many downloads of a run succeeded and failed.
#[derive(Debug, Clone, Copy, PartialEq, Eq)]
pub struct DownloadSummary {
    pub succeeded: usize,
    pub failed: usize,
}

/// The kind of an input/output failure, as far as retrying cares.
#[derive(Debug, Clone, Copy, PartialEq, Eq)]
pub enum IoErrorKind {
    UnexpectedEof,
    ConnectionReset,
    ConnectionAborted,
    TimedOut,
    BrokenPipe,
    Other,
}

/// Why a download failed.
#[derive(Debug, Clone, PartialEq, Eq)]
pub enum DownloadError {
    Io { kind: IoErrorKind, message: String },
    HttpStatus { url: String, status: u16 },
    Network { url: String, message: String },
    SizeMismatch { expected: u64, actual: u64 },
    Sha1Mismatch { expected: String, actual: String },
}

/// Whether a failed download is worth another try: network failures,
/// throttling and server errors (429, 500, 502, 503, 504), interrupted
/// transfers and integrity mismatches.
pub open spec fn retryable(e: DownloadError) -> bool {
    match e {
        DownloadError::Network { .. } => true,
        DownloadError::HttpStatus { status, .. } => status == 429 || status == 500 || status == 502
            || status == 503 || status == 504,
        DownloadError::Io { kind, .. } => kind != IoErrorKind::Other,
        DownloadError::SizeMismatch { .. } | DownloadError::Sha1Mismatch { .. } => true,
    }
}

impl DownloadError {
    /// Whether the failed download is worth another try.
    pub fn is_retryable(&self) -> (b: bool)
        ensures
            b == retryable(*self),
    {
        match self {
            DownloadError::Network { .. } => true,
            DownloadError::HttpStatus { status, .. } => *status == 429 || *status == 500 || *status
                == 502 || *status == 503 || *status == 504,
            DownloadError::Io { kind, .. } => match kind {
                IoErrorKind::Other => false,
                _ => true,
            },
            DownloadError::SizeMismatch { .. } | DownloadError::Sha1Mismatch { .. } => true,
        }
    }
}

/// Whether attempt number `attempt` (from 1) is followed by another one.
pub open spec fn retries_after(attempt: usize, e: DownloadError) -> bool {
    attempt < MAX_DOWNLOAD_ATTEMPTS && retryable(e)
}

/// Whether a download that failed on attempt `attempt` (counted from 1) is
/// tried again: when attempts are left and the failure is retryable.
pub fn should_retry(attempt: usize, error: &DownloadError) -> (b: bool)
    ensures
        b == retries_after(attempt, *error),
{
    attempt < MAX_DOWNLOAD_ATTEMPTS && error.is_retryable()
}

/// How long to wait after failed attempt `attempt`: half a second per
/// attempt so far.
pub fn retry_backoff_ms(attempt: usize) -> (ms: u64)
    requires
        attempt < MAX_DOWNLOAD_ATTEMPTS,
    ensures
        ms == 500 * attempt,
{
    500 * attempt as u64
}

/// How many downloads run at once: the configured thread count (at least
/// one) for asynchronous downloads, else one.
pub fn download_concurrency(config: &LauncherConfig) -> (n: usize)
    ensures
        n == (if config.async_download {
            if config.download_threads > 1 {
                config.download_threads
            } else {
                1
            }
        } else {
            1
        }),
{
    if config.async_download {
        if config.download_threads > 1 {
            config.download_threads
        } else {
            1
        }
    } else {
        1
    }
}

/// A job as its kind, URL, destination, expected hash, expected size and
/// label.
pub type JobView = (DownloadKind, Seq<char>, Seq<char>, Option<Seq<char>>, Option<u64>, Seq<char>);

/// A job as its kind, URL, destination, integrity data and label.
pub open spec fn job_view(j: DownloadJob) -> JobView {
    (j.kind, j.url@, j.destination@, j.expected_sha1.deep_view(), j.expected_size, j.label@)
}

/// An optional job as its view.
pub open spec fn opt_job_view(j: Option<DownloadJob>) -> Option<JobView> {
    match j {
        Some(x) => Some(job_view(x)),
        None => None,
    }
}

impl DownloadJob {
    /// A job without integrity data.
    pub fn new(kind: DownloadKind, url: String, destination: String, label: String) -> (j: Self)
        ensures
            j.kind == kind,
            j.url == url,
            j.destination == destination,
            j.expected_sha1 is None,
            j.expected_size is None,
            j.label == label,
    {
        DownloadJob { kind, url, destination, expected_sha1: None, expected_size: None, label }
    }

    /// The job with the given hash and size to check.
    pub fn with_integrity(self, sha1: Option<String>, size: Option<u64>) -> (j: Self)
        ensures
            j.kind == self.kind,
            j.url == self.url,
            j.destination == self.destination,
            j.expected_sha1 == sha1,
            j.expected_size == size,
            j.label == self.label,
    {
        let mut j = self;
        j.expected_sha1 = sha1;
        j.expected_size = size;
        j
    }
}

/// The first manifest entry with id `version`.
pub open spec fn manifest_entry(m: Seq<ManifestVersion>, version: Seq<char>) -> Option<ManifestVersion>
    decreases m.len(),
{
    if m.len() == 0 {
        None
    } else if m[0].id@ == version {
        Some(m[0])
    } else {
        manifest_entry(m.drop_first(), version)
    }
}

/// The job for a version's JSON file, when the manifest lists the version.
pub open spec fn version_json_job_spec(m: Seq<ManifestVersion>, game_dir: Seq<char>, version: Seq<char>) -> Option<JobView> {
    match manifest_entry(m, version) {
        Some(e) => Some(
            (
                DownloadKind::VersionJson,
                e.url@,
                version_json_path_spec(game_dir, version),
                e.sha1.deep_view(),
                None,
                "version "@ + version + " json"@,
            ),
        ),
        None => None,
    }
}

/// A string from a literal followed by characters and another literal.
fn concat3(a: &str, b: &[char], c: &str) -> (s: String)
    ensures
        s@ == a@ + b@ + c@,
{
    let mut out = chars_of(a);
    push_all(&mut out, b);
    let cc = chars_of(c);
    push_all(&mut out, cc.as_slice());
    string_of(out.as_slice())
}

/// The job that downloads a version's JSON file.
pub fn version_json_job(manifest: &[ManifestVersion], game_dir: &str, version: &str) -> (j: Option<DownloadJob>)
    ensures
        opt_job_view(j) == version_json_job_spec(manifest@, game_dir@, version@),
{
    let v = chars_of(version);
    let mut i: usize = 0;
    assert(manifest@.skip(0) =~= manifest@);
    while i < manifest.len()
        invariant
            i <= manifest.len(),
            v@ == version@,
            manifest_entry(manifest@, version@) == manifest_entry(manifest@.skip(i as int), version@),
        decreases manifest.len() - i,
    {
        assert(manifest@.skip(i as int)[0] == manifest@[i as int]);
        assert(manifest@.skip(i as int).drop_first() =~= manifest@.skip(i + 1));
        let id = chars_of(manifest[i].id.as_str());
        if chars_eq(id.as_slice(), v.as_slice()) {
            let dest = crate::minecraft::version_json_path(game_dir, version);
            let label = concat3("version ", v.as_slice(), " json");
            let job = DownloadJob::new(DownloadKind::VersionJson, manifest[i].url.clone(), dest, label)
                .with_integrity(clone_opt(&manifest[i].sha1), None);
            return Some(job);
        }
        i += 1;
    }
    None
}

/// The job for a download entry at `dest`, when the entry has a URL.
pub open spec fn info_job_spec(kind: DownloadKind, info: DownloadInfo, dest: Seq<char>, label: Seq<char>) -> Option<JobView> {
    match info.url {
        Some(u) => Some((kind, u@, dest, info.sha1.deep_view(), info.size, label)),
        None => None,
    }
}

fn download_info_job(kind: DownloadKind, info: &DownloadInfo, dest: String, label: String) -> (j: Option<DownloadJob>)
    ensures
        opt_job_view(j) == info_job_spec(kind, *info, dest@, label@),
{
    match &info.url {
        Some(u) => Some(
            DownloadJob::new(kind, u.clone(), dest, label).with_integrity(clone_opt(&info.sha1), info.size),
        ),
        None => None,
    }
}

/// `<game>/versions/<id>/<id>.jar`.
pub open spec fn client_jar_path(game_dir: Seq<char>, id: Seq<char>) -> Seq<char> {
    path_join(path_join(path_join(game_dir, "versions"@), id), id + ".jar"@)
}

/// The jar id of a version: its `jar`, else its id.
pub open spec fn jar_name(v: MinecraftVersionJson) -> Option<Seq<char>> {
    match v.jar {
        Some(j) => Some(j@),
        None => v.id.deep_view(),
    }
}

/// The job for a version's client jar.
pub open spec fn client_jar_job_spec(v: MinecraftVersionJson, game_dir: Seq<char>) -> Option<JobView> {
    match (jar_name(v), v.downloads) {
        (Some(id), Some(d)) => match d.client {
            Some(c) => info_job_spec(DownloadKind::ClientJar, c, client_jar_path(game_dir, id), "client jar "@ + id),
            None => None,
        },
        _ => None,
    }
}

/// The job that downloads a version's client jar.
pub fn client_jar_job(version: &MinecraftVersionJson, game_dir: &str) -> (j: Option<DownloadJob>)
    ensures
        opt_job_view(j) == client_jar_job_spec(*version, game_dir@),
{
    let id = match &version.jar {
        Some(j) => chars_of(j.as_str()),
        None => match &version.id {
            Some(i) => chars_of(i.as_str()),
            None => return None,
        },
    };
    let client = match &version.downloads {
        Some(d) => match &d.client {
            Some(c) => c,
            None => return None,
        },
        None => return None,
    };
    let g = chars_of(game_dir);
    let a = join_path_str(g.as_slice(), "versions");
    let b = join_path(a.as_slice(), id.as_slice());
    let mut file = copy_chars(id.as_slice());
    let ext = chars_of(".jar");
    push_all(&mut file, ext.as_slice());
    let dest = join_path(b.as_slice(), file.as_slice());
    let label = concat3("client jar ", id.as_slice(), "");
    assert(("client jar "@ + id@ + ""@) =~= "client jar "@ + id@) by {
        reveal_strlit("");
    }
    download_info_job(DownloadKind::ClientJar, client, string_of(dest.as_slice()), label)
}

/// `<game>/assets/indexes/<id>.json`.
pub open spec fn asset_index_path(game_dir: Seq<char>, id: Seq<char>) -> Seq<char> {
    path_join(path_join(path_join(game_dir, "assets"@), "indexes"@), id + ".json"@)
}

/// The job for a version's asset index: it needs an index entry with a URL
/// and an id (the entry's, else `assets`).
pub open spec fn asset_index_job_spec(v: MinecraftVersionJson, game_dir: Seq<char>) -> Option<JobView> {
    match v.asset_index {
        Some(a) => {
            let id = match a.id {
                Some(i) => Some(i@),
                None => v.assets.deep_view(),
            };
            match (id, a.url) {
                (Some(i), Some(u)) => Some(
                    (
                        DownloadKind::AssetIndex,
                        u@,
                        asset_index_path(game_dir, i),
                        a.sha1.deep_view(),
                        a.size,
                        "asset index "@ + i,
                    ),
                ),
                _ => None,
            }
        },
        None => None,
    }
}

/// The job that downloads a version's asset index.
pub fn asset_index_job(version: &MinecraftVersionJson, game_dir: &str) -> (j: Option<DownloadJob>)
    ensures
        opt_job_view(j) == asset_index_job_spec(*version, game_dir@),
{
    let index = match &version.asset_index {
        Some(a) => a,
        None => return None,
    };
    let id = match &index.id {
        Some(i) => chars_of(i.as_str()),
        None => match &version.assets {
            Some(a) => chars_of(a.as_str()),
            None => return None,
        },
    };
    let url = match &index.url {
        Some(u) => u.clone(),
        None => return None,
    };
    let g = chars_of(game_dir);
    let a = join_path_str(g.as_slice(), "assets");
    let b = join_path_str(a.as_slice(), "indexes");
    let mut file = copy_chars(id.as_slice());
    let ext = chars_of(".json");
    push_all(&mut file, ext.as_slice());
    let dest = join_path(b.as_slice(), file.as_slice());
    let label = concat3("asset index ", id.as_slice(), "");
    assert(("asset index "@ + id@ + ""@) =~= "asset index "@ + id@) by {
        reveal_strlit("");
    }
    Some(
        DownloadJob::new(DownloadKind::AssetIndex, url, string_of(dest.as_slice()), label).with_integrity(
            clone_opt(&index.sha1),
            index.size,
        ),
    )
}

/// The job for a version's logging configuration.
pub open spec fn logging_config_job_spec(v: MinecraftVersionJson, game_dir: Seq<char>) -> Option<JobView> {
    match crate::command::logging_file(v) {
        Some(f) => info_job_spec(
            DownloadKind::LogConfig,
            f,
            logging_config_path_spec(game_dir, f),
            "client logging config"@,
        ),
        None => None,
    }
}

/// The job that downloads a version's logging configuration.
pub fn logging_config_job(version: &MinecraftVersionJson, game_dir: &str) -> (j: Option<DownloadJob>)
    ensures
        opt_job_view(j) == logging_config_job_spec(*version, game_dir@),
{
    let file = match &version.logging {
        Some(l) => match &l.client {
            Some(c) => match &c.file {
                Some(f) => f,
                None => return None,
            },
            None => return None,
        },
        None => return None,
    };
    let dest = logging_config_path(game_dir, file);
    download_info_job(DownloadKind::LogConfig, file, dest, String::from_str("client logging config"))
}

/// `s` ending in `/`.
pub open spec fn with_slash(s: Seq<char>) -> Seq<char> {
    if s.len() > 0 && s.last() == '/' {
        s
    } else {
        s.push('/')
    }
}

fn ensure_slash(value: &[char]) -> (out: Vec<char>)
    ensures
        out@ == with_slash(value@),
{
    let mut out = copy_chars(value);
    if !(value.len() > 0 && value[value.len() - 1] == '/') {
        out.push('/');
    }
    out
}

/// Where a library's main artifact is downloaded from: its artifact URL,
/// else the library's base URL followed by the path, else the Mojang
/// library server.
pub open spec fn artifact_url(lib: LibraryJson, path: Seq<char>) -> Seq<char> {
    match artifact_info(lib) {
        Some(a) if a.url is Some => a.url->0@,
        _ => match lib.url {
            Some(base) => with_slash(base@) + path,
            None => LIBRARIES_BASE_URL@ + path,
        },
    }
}

/// The job for a library's main artifact.
pub open spec fn artifact_job_spec(lib: LibraryJson, libraries_dir: Seq<char>) -> Option<JobView> {
    match crate::minecraft::library_rel_path(lib) {
        Some(p) => Some(
            (
                DownloadKind::Library,
                artifact_url(lib, p),
                path_join(libraries_dir, p),
                match artifact_info(lib) {
                    Some(a) => a.sha1.deep_view(),
                    None => None,
                },
                match artifact_info(lib) {
                    Some(a) => a.size,
                    None => None,
                },
                lib.name@,
            ),
        ),
        None => None,
    }
}

/// Law: a library whose artifact entry gives no URL but which names its own
/// repository is downloaded from that repository: the job's URL is the
/// repository URL, a `/` when it does not end with one, and the artifact's
/// path, the same path the job writes to under the libraries directory.
pub proof fn lemma_library_from_own_repository(lib: LibraryJson, libraries_dir: Seq<char>)
    requires
        artifact_info(lib) is None || artifact_info(lib)->0.url is None,
        lib.url is Some,
        crate::minecraft::library_rel_path(lib) is Some,
    ensures
        ({
            let base = lib.url->0@;
            let p = crate::minecraft::library_rel_path(lib)->0;
            let job = artifact_job_spec(lib, libraries_dir)->0;
            &&& artifact_job_spec(lib, libraries_dir) is Some
            &&& job.1.len() >= base.len()
            &&& job.1.take(base.len() as int) == base
            &&& (base.len() > 0 && base.last() == '/') ==> job.1 == base + p
            &&& !(base.len() > 0 && base.last() == '/') ==> job.1 == base + "/"@ + p
            &&& job.2 == path_join(libraries_dir, p)
        }),
{
    reveal_strlit("/");
    let base = lib.url->0@;
    let p = crate::minecraft::library_rel_path(lib)->0;
    let job = artifact_job_spec(lib, libraries_dir)->0;
    if base.len() > 0 && base.last() == '/' {
        assert(job.1 == base + p);
        assert((base + p).take(base.len() as int) =~= base);
    } else {
        assert(job.1 == base.push('/') + p);
        assert(base.push('/') + p =~= base + "/"@ + p);
        assert((base + "/"@ + p).take(base.len() as int) =~= base);
    }
}

/// The native classifier to download for a library: the one its `natives`
/// map lists for the OS, or the OS default when it has no such map.
pub open spec fn download_classifier(lib: LibraryJson, ctx: LaunchContext) -> Option<Seq<char>> {
    if lib.natives is Some {
        listed_native_classifier(lib, ctx)
    } else {
        Some(os_native_classifier(ctx.os@))
    }
}

/// The classifier entry to download natives from.
pub open spec fn native_info(lib: LibraryJson, ctx: LaunchContext) -> Option<(Seq<char>, DownloadInfo)> {
    match download_classifier(lib, ctx) {
        Some(c) => match library_classifiers(lib) {
            Some(cl) => match pair_lookup(cl, c) {
                Some(info) => Some((c, info)),
                None => None,
            },
            None => None,
        },
        None => None,
    }
}

/// Whether the natives path of a library can be formed: its classifier
/// entry gives a path, or a classifier path can be built from its name.
pub open spec fn native_path_defined(lib: LibraryJson, ctx: LaunchContext) -> bool {
    match native_info(lib, ctx) {
        Some((c, info)) => info.path is Some || classifier_path_defined(lib.name@),
        None => true,
    }
}

/// The job for a library's natives archive.
pub open spec fn native_job_spec(lib: LibraryJson, libraries_dir: Seq<char>, ctx: LaunchContext) -> Option<JobView> {
    match native_info(lib, ctx) {
        Some((c, info)) => {
            let path = match info.path {
                Some(p) => p@,
                None => classifier_path_spec(lib.name@, c),
            };
            info_job_spec(DownloadKind::NativeLibrary, info, path_join(libraries_dir, path), lib.name@ + " "@ + c)
        },
        None => None,
    }
}

/// A resolved library as the views of its jobs.
pub open spec fn resolved_view(r: ResolvedLibrary) -> (Option<JobView>, Option<JobView>) {
    (opt_job_view(r.artifact), opt_job_view(r.native))
}

fn artifact_job(lib: &LibraryJson, libraries_dir: &[char]) -> (j: Option<DownloadJob>)
    ensures
        opt_job_view(j) == artifact_job_spec(*lib, libraries_dir@),
{
    let artifact: Option<&DownloadInfo> = match &lib.downloads {
        Some(d) => match &d.artifact {
            Some(a) => Some(a),
            None => None,
        },
        None => None,
    };
    let rel: Vec<char> = match artifact {
        Some(a) if a.path.is_some() => {
            let p = a.path.as_ref().unwrap();
            chars_of(p.as_str())
        },
        _ => if lib.downloads.is_none() {
            let n = chars_of(lib.name.as_str());
            maven_path(n.as_slice())
        } else {
            return None;
        },
    };
    let url: Vec<char> = match artifact {
        Some(a) if a.url.is_some() => {
            let u = a.url.as_ref().unwrap();
            chars_of(u.as_str())
        },
        _ => match &lib.url {
            Some(base) => {
                let b = chars_of(base.as_str());
                let mut out = ensure_slash(b.as_slice());
                push_all(&mut out, rel.as_slice());
                out
            },
            None => {
                let mut out = chars_of(LIBRARIES_BASE_URL);
                push_all(&mut out, rel.as_slice());
                out
            },
        },
    };
    let dest = join_path(libraries_dir, rel.as_slice());
    let (sha1, size) = match artifact {
        Some(a) => (clone_opt(&a.sha1), a.size),
        None => (None, None),
    };
    Some(
        DownloadJob::new(
            DownloadKind::Library,
            string_of(url.as_slice()),
            string_of(dest.as_slice()),
            lib.name.clone(),
        ).with_integrity(sha1, size),
    )
}

fn download_classifier_of(lib: &LibraryJson, context: &LaunchContext) -> (r: Option<Vec<char>>)
    ensures
        r.deep_view() == download_classifier(*lib, *context),
{
    if lib.natives.is_some() {
        listed_classifier(lib, context)
    } else {
        let os = chars_of(context.os.as_str());
        let c = crate::minecraft::native_classifier_for_os(os.as_slice());
        assert(c.deep_view() =~= c@);
        Some(c)
    }
}

fn native_job(lib: &LibraryJson, libraries_dir: &[char], context: &LaunchContext) -> (j: Option<DownloadJob>)
    requires
        native_path_defined(*lib, *context),
    ensures
        opt_job_view(j) == native_job_spec(*lib, libraries_dir@, *context),
{
    let c = match download_classifier_of(lib, context) {
        Some(c) => c,
        None => return None,
    };
    assert(c.deep_view() =~= c@);
    let cl = match &lib.downloads {
        Some(d) => match &d.classifiers {
            Some(cl) => cl,
            None => return None,
        },
        None => return None,
    };
    let i = match lookup_pair(cl, c.as_slice()) {
        Some(i) => i,
        None => return None,
    };
    let info = &cl[i].1;
    let path: Vec<char> = match &info.path {
        Some(p) => chars_of(p.as_str()),
        None => {
            let n = chars_of(lib.name.as_str());
            classifier_path(n.as_slice(), c.as_slice())
        },
    };
    let dest = join_path(libraries_dir, path.as_slice());
    let mut label = chars_of(lib.name.as_str());
    label.push(' ');
    push_all(&mut label, c.as_slice());
    proof {
        reveal_strlit(" ");
    }
    assert(label@ =~= lib.name@ + " "@ + c@);
    download_info_job(DownloadKind::NativeLibrary, info, string_of(dest.as_slice()), string_of(label.as_slice()))
}

/// The downloads of one library.
fn resolve_library(lib: &LibraryJson, libraries_dir: &[char], context: &LaunchContext) -> (r: ResolvedLibrary)
    requires
        native_path_defined(*lib, *context),
    ensures
        resolved_view(r) == (artifact_job_spec(*lib, libraries_dir@), native_job_spec(*lib, libraries_dir@, *context)),
{
    ResolvedLibrary { artifact: artifact_job(lib, libraries_dir), native: native_job(lib, libraries_dir, context) }
}

/// The downloads of the libraries that the rules allow, in order.
pub open spec fn parse_libraries_spec(libs: Seq<LibraryJson>, game_dir: Seq<char>, ctx: LaunchContext) -> Seq<
    (Option<JobView>, Option<JobView>),
>
    decreases libs.len(),
{
    if libs.len() == 0 {
        Seq::empty()
    } else {
        let prev = parse_libraries_spec(libs.drop_last(), game_dir, ctx);
        let lib = libs.last();
        let dir = path_join(game_dir, "libraries"@);
        if rules_allow(lib.rules@, ctx) {
            prev.push((artifact_job_spec(lib, dir), native_job_spec(lib, dir, ctx)))
        } else {
            prev
        }
    }
}

/// Whether the natives paths of all allowed libraries can be formed.
pub open spec fn native_paths_ok(libs: Seq<LibraryJson>, ctx: LaunchContext) -> bool {
    forall|i: int| 0 <= i < libs.len() && rules_allow(#[trigger] libs[i].rules@, ctx) ==> native_path_defined(libs[i], ctx)
}

/// Whether the natives paths of all allowed libraries of a version can be
/// formed, so that `parse_libraries` may be called.
pub fn native_paths_defined(version: &MinecraftVersionJson, context: &LaunchContext) -> (b: bool)
    ensures
        b == native_paths_ok(version.libraries@, *context),
{
    let libs = &version.libraries;
    let mut i: usize = 0;
    while i < libs.len()
        invariant
            libs@ == version.libraries@,
            i <= libs.len(),
            forall|j: int| 0 <= j < i && rules_allow(#[trigger] libs@[j].rules@, *context) ==> native_path_defined(libs@[j], *context),
        decreases libs.len() - i,
    {
        let lib = &libs[i];
        if rules_apply_with_context(&lib.rules, context) {
            let ok = match download_classifier_of(lib, context) {
                Some(c) => {
                    assert(c.deep_view() =~= c@);
                    match &lib.downloads {
                        Some(d) => match &d.classifiers {
                            Some(cl) => match lookup_pair(cl, c.as_slice()) {
                                Some(k) => {
                                    assert(native_info(*lib, *context) == Some((c@, cl@[k as int].1)));
                                    cl[k].1.path.is_some() || crate::minecraft::classifier_path_ok(
                                        lib.name.as_str(),
                                    )
                                },
                                None => true,
                            },
                            None => true,
                        },
                        None => true,
                    }
                },
                None => true,
            };
            if !ok {
                assert(!native_path_defined(libs@[i as int], *context));
                assert(rules_allow(libs@[i as int].rules@, *context));
                return false;
            }
        }
        i += 1;
    }
    true
}

/// The downloads of the libraries of a version that the rules allow in the
/// context: main artifacts and natives archives under `<game>/libraries`.
pub fn parse_libraries(version: &MinecraftVersionJson, game_dir: &str, context: &LaunchContext) -> (libs: Vec<
    ResolvedLibrary,
>)
    requires
        native_paths_ok(version.libraries@, *context),
    ensures
        libs@.map_values(|r: ResolvedLibrary| resolved_view(r)) == parse_libraries_spec(
            version.libraries@,
            game_dir@,
            *context,
        ),
{
    let g = chars_of(game_dir);
    let dir = join_path_str(g.as_slice(), "libraries");
    let ls = &version.libraries;
    let mut out: Vec<ResolvedLibrary> = Vec::new();
    let mut i: usize = 0;
    assert(ls@.take(0) =~= Seq::<LibraryJson>::empty());
    assert(out@.map_values(|r: ResolvedLibrary| resolved_view(r)) =~= Seq::<(Option<JobView>, Option<JobView>)>::empty());
    while i < ls.len()
        invariant
            i <= ls.len(),
            dir@ == path_join(game_dir@, "libraries"@),
            native_paths_ok(ls@, *context),
            out@.map_values(|r: ResolvedLibrary| resolved_view(r)) == parse_libraries_spec(
                ls@.take(i as int),
                game_dir@,
                *context,
            ),
        decreases ls.len() - i,
    {
        assert(ls@.take(i + 1).drop_last() =~= ls@.take(i as int));
        assert(ls@.take(i + 1).last() == ls@[i as int]);
        let lib = &ls[i];
        if rules_apply_with_context(&lib.rules, context) {
            let r = resolve_library(lib, dir.as_slice(), context);
            let ghost prev = out@.map_values(|r: ResolvedLibrary| resolved_view(r));
            out.push(r);
            assert(out@.map_values(|r: ResolvedLibrary| resolved_view(r)) =~= prev.push(resolved_view(r)));
        }
        i += 1;
    }
    assert(ls@.take(ls.len() as int) =~= ls@);
    out
}

/// The first two bytes of an asset hash, when they are whole characters
/// (`str::get(0..2)`), else nothing.
pub open spec fn hash_prefix(hash: Seq<char>) -> Seq<char> {
    match byte_prefix(hash, 2) {
        Some(p) => p,
        None => Seq::empty(),
    }
}

/// The job for one asset object: fetched by hash from the asset server
/// into `<game>/assets/objects/<first two hash characters>/<hash>`.
pub open spec fn asset_job_spec(name: Seq<char>, hash: Seq<char>, size: Option<u64>, game_dir: Seq<char>) -> JobView {
    let prefix = hash_prefix(hash);
    (
        DownloadKind::Asset,
        ASSET_OBJECTS_BASE_URL@ + prefix + seq!['/'] + hash,
        path_join(game_dir, path_join(path_join(path_join("assets"@, "objects"@), prefix), hash)),
        Some(hash),
        size,
        "asset "@ + name,
    )
}

/// The job that downloads one asset object of an asset index.
pub fn asset_job(name: &str, hash: &str, size: Option<u64>, game_dir: &str) -> (j: DownloadJob)
    ensures
        job_view(j) == asset_job_spec(name@, hash@, size, game_dir@),
{
    let h = chars_of(hash);
    let prefix = match take_bytes(h.as_slice(), 2) {
        Some(p) => {
            assert(p.deep_view() =~= p@);
            p
        },
        None => Vec::new(),
    };
    let assets = chars_of("assets");
    let a = join_path_str(assets.as_slice(), "objects");
    let b = join_path(a.as_slice(), prefix.as_slice());
    let rel = join_path(b.as_slice(), h.as_slice());
    let g = chars_of(game_dir);
    let dest = join_path(g.as_slice(), rel.as_slice());
    let mut url = chars_of(ASSET_OBJECTS_BASE_URL);
    push_all(&mut url, prefix.as_slice());
    url.push('/');
    push_all(&mut url, h.as_slice());
    let n = chars_of(name);
    let label = concat3("asset ", n.as_slice(), "");
    assert(("asset "@ + name@ + ""@) =~= "asset "@ + name@) by {
        reveal_strlit("");
    }
    assert(url@ =~= ASSET_OBJECTS_BASE_URL@ + hash_prefix(hash@) + seq!['/'] + hash@);
    DownloadJob::new(DownloadKind::Asset, string_of(url.as_slice()), string_of(dest.as_slice()), label).with_integrity(
        Some(String::from_str(hash)),
        size,
    )
}

/// A copy of a job.
pub fn copy_job(j: &DownloadJob) -> (r: DownloadJob)
    ensures
        r == *j,
{
    DownloadJob {
        kind: j.kind,
        url: j.url.clone(),
        destination: j.destination.clone(),
        expected_sha1: clone_opt(&j.expected_sha1),
        expected_size: j.expected_size,
        label: j.label.clone(),
    }
}

/// The jobs left after dropping every job whose destination an earlier job
/// already has.
pub open spec fn dedupe_spec(jobs: Seq<DownloadJob>) -> Seq<DownloadJob>
    decreases jobs.len(),
{
    if jobs.len() == 0 {
        Seq::empty()
    } else {
        let prev = dedupe_spec(jobs.drop_last());
        if exists|k: int| 0 <= k < jobs.len() - 1 && #[trigger] jobs[k].destination@ == jobs.last().destination@ {
            prev
        } else {
            prev.push(jobs.last())
        }
    }
}

/// Schedules each destination once: a job is dropped when an earlier job
/// writes the same destination (see `lemma_dedupe_unique`, `lemma_dedupe_covers`, `lemma_dedupe_first`).
pub fn dedupe_jobs_by_destination(jobs: Vec<DownloadJob>) -> (out: Vec<DownloadJob>)
    ensures
        out@ == dedupe_spec(jobs@),
{
    let mut out: Vec<DownloadJob> = Vec::new();
    let mut seen: Vec<Vec<char>> = Vec::new();
    let mut i: usize = 0;
    assert(jobs@.take(0) =~= Seq::<DownloadJob>::empty());
    while i < jobs.len()
        invariant
            i <= jobs.len(),
            out@ == dedupe_spec(jobs@.take(i as int)),
            seen@.len() == i,
            forall|k: int| 0 <= k < i ==> #[trigger] seen@[k]@ == jobs@[k].destination@,
        decreases jobs.len() - i,
    {
        let d = chars_of(jobs[i].destination.as_str());
        let mut found = false;
        let mut k: usize = 0;
        while k < i
            invariant
                k <= i,
                i < jobs.len(),
                seen@.len() == i,
                forall|m: int| 0 <= m < i ==> #[trigger] seen@[m]@ == jobs@[m].destination@,
                d@ == jobs@[i as int].destination@,
                found == exists|m: int| 0 <= m < k && #[trigger] jobs@[m].destination@ == d@,
            decreases i - k,
        {
            if chars_eq(seen[k].as_slice(), d.as_slice()) {
                found = true;
            }
            k += 1;
        }
        let ghost t = jobs@.take(i + 1);
        assert(t.drop_last() =~= jobs@.take(i as int));
        assert(t.last() == jobs@[i as int]);
        assert(found == exists|m: int| 0 <= m < t.len() - 1 && #[trigger] t[m].destination@ == t.last().destination@) by {
            if found {
                let m = choose|m: int| 0 <= m < i && #[trigger] jobs@[m].destination@ == d@;
                assert(t[m] == jobs@[m]);
            }
            if exists|m: int| 0 <= m < t.len() - 1 && #[trigger] t[m].destination@ == t.last().destination@ {
                let m = choose|m: int| 0 <= m < t.len() - 1 && #[trigger] t[m].destination@ == t.last().destination@;
                assert(t[m] == jobs@[m]);
            }
        }
        if !found {
            out.push(copy_job(&jobs[i]));
        }
        seen.push(d);
        i += 1;
    }
    assert(jobs@.take(jobs.len() as int) =~= jobs@);
    out
}

/// Law: each job kept by `dedupe_jobs_by_destination` is the first input
/// job with its destination.
pub proof fn lemma_dedupe_first(jobs: Seq<DownloadJob>)
    ensures
        forall|i: int|
            0 <= i < dedupe_spec(jobs).len() ==> exists|k: int|
                0 <= k < jobs.len() && #[trigger] jobs[k] == #[trigger] dedupe_spec(jobs)[i] && forall|m: int|
                    0 <= m < k ==> jobs[m].destination@ != jobs[k].destination@,
    decreases jobs.len(),
{
    if jobs.len() > 0 {
        let init = jobs.drop_last();
        let prev = dedupe_spec(init);
        lemma_dedupe_first(init);
        let last = jobs.last();
        let out = dedupe_spec(jobs);
        assert forall|i: int| 0 <= i < out.len() implies exists|k: int|
            0 <= k < jobs.len() && #[trigger] jobs[k] == #[trigger] out[i] && forall|m: int|
                0 <= m < k ==> jobs[m].destination@ != jobs[k].destination@ by {
            if i < prev.len() {
                assert(out[i] == prev[i]);
                let k = choose|k: int|
                    0 <= k < init.len() && #[trigger] init[k] == #[trigger] prev[i] && forall|m: int|
                        0 <= m < k ==> init[m].destination@ != init[k].destination@;
                assert(jobs[k] == init[k]);
                assert forall|m: int| 0 <= m < k implies jobs[m].destination@ != jobs[k].destination@ by {
                    assert(init[m] == jobs[m]);
                }
            } else {
                let k = jobs.len() - 1;
                assert(jobs[k] == out[i]);
            }
        }
    }
}

/// Law: after `dedupe_jobs_by_destination` no two jobs share a destination.
pub proof fn lemma_dedupe_unique(jobs: Seq<DownloadJob>)
    ensures
        forall|i: int, j: int|
            0 <= i < j < dedupe_spec(jobs).len() ==> #[trigger] dedupe_spec(jobs)[i].destination@
                != #[trigger] dedupe_spec(jobs)[j].destination@,
    decreases jobs.len(),
{
    if jobs.len() > 0 {
        let init = jobs.drop_last();
        let prev = dedupe_spec(init);
        lemma_dedupe_unique(init);
        lemma_dedupe_first(init);
        let last = jobs.last();
        let out = dedupe_spec(jobs);
        if !(exists|k: int| 0 <= k < jobs.len() - 1 && #[trigger] jobs[k].destination@ == last.destination@) {
            assert forall|i: int| 0 <= i < prev.len() implies #[trigger] prev[i].destination@ != last.destination@ by {
                let k = choose|k: int|
                    0 <= k < init.len() && #[trigger] init[k] == #[trigger] prev[i] && forall|m: int|
                        0 <= m < k ==> init[m].destination@ != init[k].destination@;
                assert(init[k] == jobs[k]);
            }
            assert forall|i: int, j: int| 0 <= i < j < out.len() implies #[trigger] out[i].destination@
                != #[trigger] out[j].destination@ by {
                assert(out[i] == prev[i]);
                if j < prev.len() {
                    assert(out[j] == prev[j]);
                } else {
                    assert(out[j] == last);
                }
            }
        }
    }
}

/// Law: every destination of the input of `dedupe_jobs_by_destination` is
/// still scheduled after it.
pub proof fn lemma_dedupe_covers(jobs: Seq<DownloadJob>)
    ensures
        forall|k: int|
            #![trigger jobs[k]]
            0 <= k < jobs.len() ==> exists|i: int|
                #![trigger dedupe_spec(jobs)[i]]
                0 <= i < dedupe_spec(jobs).len() && dedupe_spec(jobs)[i].destination@ == jobs[k].destination@,
    decreases jobs.len(),
{
    if jobs.len() > 0 {
        let init = jobs.drop_last();
        let prev = dedupe_spec(init);
        lemma_dedupe_covers(init);
        let last = jobs.last();
        let out = dedupe_spec(jobs);
        assert forall|k: int| 0 <= k < jobs.len() implies exists|i: int|
            0 <= i < out.len() && #[trigger] out[i].destination@ == #[trigger] jobs[k].destination@ by {
            let w = if k < jobs.len() - 1 {
                k
            } else {
                choose|w: int| 0 <= w < jobs.len() - 1 && #[trigger] jobs[w].destination@ == last.destination@
            };
            if 0 <= w < jobs.len() - 1 && jobs[w].destination@ == jobs[k].destination@ {
                assert(init[w] == jobs[w]);
                let i = choose|i: int| 0 <= i < prev.len() && #[trigger] prev[i].destination@ == #[trigger] init[w].destination@;
                assert(out[i] == prev[i]);
            } else {
                assert(k == jobs.len() - 1);
                assert(out[prev.len() as int] == last);
            }
        }
    }
}

/// The version a download is for: the first manifest entry for `latest`
/// (or `latest` itself when the manifest is empty), else the selection.
pub open spec fn selected_version_spec(m: Seq<ManifestVersion>, selected: Seq<char>) -> Seq<char> {
    if selected == "latest"@ {
        if m.len() > 0 {
            m[0].id@
        } else {
            selected
        }
    } else {
        selected
    }
}

/// Resolves the `latest` alias against the manifest.
pub fn resolve_selected_version(manifest: &[ManifestVersion], selected: &str) -> (v: String)
    ensures
        v@ == selected_version_spec(manifest@, selected@),
{
    let s = chars_of(selected);
    let latest = chars_of("latest");
    if chars_eq(s.as_slice(), latest.as_slice()) {
        if manifest.len() > 0 {
            manifest[0].id.clone()
        } else {
            String::from_str(selected)
        }
    } else {
        String::from_str(selected)
    }
}

/// The scratch file a download is written to before it is checked.
pub fn temporary_download_path(destination: &str) -> (p: String)
    ensures
        p@ == destination@ + ".download"@,
{
    let mut c = chars_of(destination);
    let ext = chars_of(".download");
    push_all(&mut c, ext.as_slice());
    string_of(c.as_slice())
}

/// Checks a finished download against the job's integrity data.
pub fn check_download(job: &DownloadJob, downloaded: u64, actual_sha1: &str) -> (r: Result<(), DownloadError>)
    ensures
        match job.expected_size {
            Some(expected) if expected != downloaded => r == Err::<(), DownloadError>(
                DownloadError::SizeMismatch { expected, actual: downloaded },
            ),
            _ => match job.expected_sha1 {
                Some(expected) if ascii_lowercase(expected@) != ascii_lowercase(actual_sha1@) => r matches Err(
                    DownloadError::Sha1Mismatch { expected: e, actual: a },
                ) && e@ == expected@ && a@ == actual_sha1@,
                _ => r is Ok,
            },
        },
{
    match job.expected_size {
        Some(expected) => {
            if expected != downloaded {
                return Err(DownloadError::SizeMismatch { expected, actual: downloaded });
            }
        },
        None => {},
    }
    match &job.expected_sha1 {
        Some(expected) => {
            let e = chars_of(expected.as_str());
            let a = chars_of(actual_sha1);
            if !eq_ignore_ascii_case(e.as_slice(), a.as_slice()) {
                return Err(
                    DownloadError::Sha1Mismatch {
                        expected: expected.clone(),
                        actual: String::from_str(actual_sha1),
                    },
                );
            }
        },
        None => {},
    }
    Ok(())
}

/// Whether a file already on disk, of `file_len` bytes, can be kept: its
/// size matches when one is expected, and its SHA-1 (`file_sha1`, absent
/// when it could not be read) matches ignoring ASCII case when one is
/// expected.
pub open spec fn existing_file_valid(job: DownloadJob, file_len: u64, file_sha1: Option<Seq<char>>) -> bool {
    &&& (job.expected_size matches Some(s) ==> s == file_len)
    &&& (job.expected_sha1 matches Some(h) ==> (file_sha1 matches Some(a) && ascii_lowercase(h@)
        == ascii_lowercase(a)))
}

/// Whether a file already on disk can be kept instead of downloaded again.
pub fn existing_file_is_valid(job: &DownloadJob, file_len: u64, file_sha1: Option<&str>) -> (b: bool)
    ensures
        b == existing_file_valid(*job, file_len, match file_sha1 {
            Some(a) => Some(a@),
            None => None,
        }),
{
    match job.expected_size {
        Some(s) => {
            if s != file_len {
                return false;
            }
        },
        None => {},
    }
    match &job.expected_sha1 {
        Some(h) => match file_sha1 {
            Some(a) => {
                let hc = chars_of(h.as_str());
                let ac = chars_of(a);
                eq_ignore_ascii_case(hc.as_slice(), ac.as_slice())
            },
            None => false,
        },
        None => true,
    }
}

/// The manifest entries to offer: releases only, unless snapshots and other
/// kinds are included.
pub open spec fn offered_versions(m: Seq<ManifestVersion>, include_snapshots: bool) -> Seq<ManifestVersion>
    decreases m.len(),
{
    if m.len() == 0 {
        Seq::empty()
    } else {
        let prev = offered_versions(m.drop_last(), include_snapshots);
        if include_snapshots || m.last().kind@ == "release"@ {
            prev.push(m.last())
        } else {
            prev
        }
    }
}

/// A copy of a manifest entry.
fn copy_manifest_version(v: &ManifestVersion) -> (r: ManifestVersion)
    ensures
        r == *v,
{
    ManifestVersion { id: v.id.clone(), kind: v.kind.clone(), url: v.url.clone(), sha1: clone_opt(&v.sha1) }
}

/// The manifest entries to offer, in manifest order.
pub fn select_manifest_versions(versions: &Vec<ManifestVersion>, include_snapshots: bool) -> (out: Vec<ManifestVersion>)
    ensures
        out@ == offered_versions(versions@, include_snapshots),
{
    let release = chars_of("release");
    let mut out: Vec<ManifestVersion> = Vec::new();
    let mut i: usize = 0;
    assert(versions@.take(0) =~= Seq::<ManifestVersion>::empty());
    while i < versions.len()
        invariant
            i <= versions.len(),
            release@ == "release"@,
            out@ == offered_versions(versions@.take(i as int), include_snapshots),
        decreases versions.len() - i,
    {
        assert(versions@.take(i + 1).drop_last() =~= versions@.take(i as int));
        assert(versions@.take(i + 1).last() == versions@[i as int]);
        let k = chars_of(versions[i].kind.as_str());
        if include_snapshots || chars_eq(k.as_slice(), release.as_slice()) {
            out.push(copy_manifest_version(&versions[i]));
        }
        i += 1;
    }
    assert(versions@.take(versions.len() as int) =~= versions@);
    out
}

/// How a download failure reads.
pub open spec fn error_message(e: DownloadError) -> Seq<char> {
    match e {
        DownloadError::Io { message, .. } => message@,
        DownloadError::HttpStatus { url, status } => "HTTP request to "@ + url@ + " failed with status "@
            + decimal(status as nat),
        DownloadError::Network { url, message } => "network request to "@ + url@ + " failed: "@ + message@,
        DownloadError::SizeMismatch { expected, actual } => "size mismatch: expected "@ + decimal(
            expected as nat,
        ) + ", got "@ + decimal(actual as nat),
        DownloadError::Sha1Mismatch { expected, actual } => "sha1 mismatch: expected "@ + expected@
            + ", got "@ + actual@,
    }
}

/// Appends a literal.
fn push_lit(out: &mut Vec<char>, s: &str)
    ensures
        final(out)@ == old(out)@ + s@,
{
    let c = chars_of(s);
    push_all(out, c.as_slice());
}

impl DownloadError {
    /// How the failure reads.
    pub fn message(&self) -> (m: String)
        ensures
            m@ == error_message(*self),
    {
        let mut out: Vec<char> = Vec::new();
        match self {
            DownloadError::Io { message, .. } => {
                push_lit(&mut out, message.as_str());
            },
            DownloadError::HttpStatus { url, status } => {
                push_lit(&mut out, "HTTP request to ");
                push_lit(&mut out, url.as_str());
                push_lit(&mut out, " failed with status ");
                let d = format_decimal(*status as u64);
                push_all(&mut out, d.as_slice());
            },
            DownloadError::Network { url, message } => {
                push_lit(&mut out, "network request to ");
                push_lit(&mut out, url.as_str());
                push_lit(&mut out, " failed: ");
                push_lit(&mut out, message.as_str());
            },
            DownloadError::SizeMismatch { expected, actual } => {
                push_lit(&mut out, "size mismatch: expected ");
                let d = format_decimal(*expected);
                push_all(&mut out, d.as_slice());
                push_lit(&mut out, ", got ");
                let d2 = format_decimal(*actual);
                push_all(&mut out, d2.as_slice());
            },
            DownloadError::Sha1Mismatch { expected, actual } => {
                push_lit(&mut out, "sha1 mismatch: expected ");
                push_lit(&mut out, expected.as_str());
                push_lit(&mut out, ", got ");
                push_lit(&mut out, actual.as_str());
            },
        }
        assert(out@ =~= error_message(*self));
        string_of(out.as_slice())
    }
}

} // verus!
