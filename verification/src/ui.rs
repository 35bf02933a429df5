//! The state behind the launcher's windows: what the main window, the
//! downloader and the settings window show, how settings flow back into
//! the configuration, and how download progress reports update the
//! downloader.
use vstd::prelude::*;

use crate::config::{join_args, join_args_spec, parse_arg_string, parse_args, LauncherConfig, PlatformDefaults};
use crate::download::{offered_versions, DownloadEvent, ManifestVersion};
use crate::minecraft::LaunchProfile;
use crate::text::{
    chars_eq, chars_of, decimal, format_decimal, join_path_str, parse_decimal, parse_unsigned, path_join,
    push_all, replace_all, replace_seq, string_of,
};

verus! {

/// Everything the launcher's windows show.
#[derive(Debug, Clone, PartialEq, Eq)]
pub struct LauncherUiState {
    pub main: MainWindowState,
    pub downloader: DownloaderWindowState,
    pub settings: SettingsWindowState,
    pub settings_dirty: bool,
    pub status_message: String,
}

/// The main window: player, memory and the installed version to play.
#[derive(Debug, Clone, PartialEq, Eq)]
pub struct MainWindowState {
    pub player_name: String,
    pub ram_mb: String,
    pub selected_version: String,
    pub installed_versions: Vec<String>,
    pub versions_error: Option<String>,
}

/// The downloader window and the progress of a running download.
#[derive(Debug, Clone, PartialEq, Eq)]
pub struct DownloaderWindowState {
    pub open: bool,
    pub selected_version: String,
    pub show_all_versions: bool,
    pub redownload_all_files: bool,
    pub available_versions: Vec<String>,
    pub manifest_versions: Vec<ManifestVersion>,
    pub versions_error: Option<String>,
    pub download_running: bool,
    pub download_total: usize,
    pub download_finished: usize,
    pub download_failed: usize,
    pub active_download: Option<String>,
    pub download_error: Option<String>,
}

/// The settings window, with numbers and argument lists as edited text.
#[derive(Debug, Clone, PartialEq, Eq)]
pub struct SettingsWindowState {
    pub open: bool,
    pub download_missing_libraries: bool,
    pub async_download: bool,
    pub download_threads: String,
    pub use_custom_java: bool,
    pub custom_java_path: String,
    pub use_custom_jvm_parameters: bool,
    pub custom_jvm_parameters: String,
    pub save_launch_string: bool,
    pub keep_launcher_open: bool,
}

/// `Some(v)` unless `v` is empty.
pub open spec fn non_empty_spec(v: Seq<char>) -> Option<Seq<char>> {
    if v.len() == 0 {
        None
    } else {
        Some(v)
    }
}

/// `v` without its spaces.
pub open spec fn without_spaces(v: Seq<char>) -> Seq<char> {
    replace_all(v, seq![' '], Seq::empty())
}

/// `v` read as a `u32` (`str::parse::<u32>`).
pub open spec fn parsed_u32(v: Seq<char>) -> Option<u32> {
    match parse_unsigned(v) {
        Some(n) => if n <= u32::MAX {
            Some(n as u32)
        } else {
            None
        },
        None => None,
    }
}

/// `v` read as a `usize`, or `fallback` when it does not read as one.
pub open spec fn parsed_usize_or(v: Seq<char>, fallback: usize) -> usize {
    match parse_unsigned(v) {
        Some(n) => if n <= usize::MAX {
            n as usize
        } else {
            fallback
        },
        None => fallback,
    }
}

/// The version to show as chosen: `preferred` when it is offered, else the
/// first one offered, else `fallback`.
pub open spec fn pick_version(preferred: Option<Seq<char>>, offered: Seq<Seq<char>>, fallback: Seq<char>) -> Seq<
    char,
> {
    if preferred is Some && offered.contains(preferred->0) {
        preferred->0
    } else if offered.len() > 0 {
        offered[0]
    } else {
        fallback
    }
}

/// The ids of the manifest entries offered for download.
pub open spec fn offered_ids(m: Seq<ManifestVersion>, include_snapshots: bool) -> Seq<Seq<char>> {
    offered_versions(m, include_snapshots).map_values(|v: ManifestVersion| v.id@)
}

/// The directory that holds installed versions.
pub open spec fn versions_dir(game_directory: Seq<char>) -> Seq<char> {
    path_join(game_directory, "versions"@)
}

/// Shown when the versions directory cannot be listed at start-up.
pub open spec fn unreadable_message(dir: Seq<char>, error: Seq<char>) -> Seq<char> {
    "Could not read "@ + dir + ": "@ + error + ". Open Downloader to install a version."@
}

/// Shown when the versions directory cannot be listed later on.
pub open spec fn reread_failed_message(dir: Seq<char>, error: Seq<char>) -> Seq<char> {
    "Could not read "@ + dir + ": "@ + error
}

/// Shown when no version is installed.
pub open spec fn no_versions_message(dir: Seq<char>) -> Seq<char> {
    "No installed versions found in "@ + dir + ". Open Downloader to install one."@
}

/// Shown when the version list could not be loaded.
pub open spec fn manifest_error_message(error: Seq<char>) -> Seq<char> {
    "Could not load Minecraft versions: "@ + error
}

/// The versions a directory listing found, none when it failed.
pub open spec fn listed(installed: Result<Vec<String>, String>) -> Seq<Seq<char>> {
    match installed {
        Ok(v) => v.deep_view(),
        Err(_) => Seq::empty(),
    }
}

/// What the main window says about a directory listing.
pub open spec fn listing_error(installed: Result<Vec<String>, String>, dir: Seq<char>) -> Option<Seq<char>> {
    match installed {
        Ok(v) => if v@.len() == 0 {
            Some(no_versions_message(dir))
        } else {
            None
        },
        Err(e) => Some(unreadable_message(dir, e@)),
    }
}

/// The single entry offered when the version list cannot be loaded.
pub open spec fn is_fallback_list(m: Seq<ManifestVersion>, selected: Seq<char>) -> bool {
    &&& m.len() == 1
    &&& m[0].id@ == selected
    &&& m[0].kind@ == "release"@
    &&& m[0].url@ == Seq::<char>::empty()
    &&& m[0].sha1 is None
}

/// The Java path the settings window shows.
pub open spec fn shown_java_path(config: LauncherConfig, found_java: Option<String>, d: PlatformDefaults) -> Seq<
    char,
> {
    match config.java_path {
        Some(p) => p@,
        None => match found_java {
            Some(j) => j@,
            None => d.default_java_executable_path@,
        },
    }
}

/// The launch parameters the settings window shows.
pub open spec fn shown_jvm_parameters(config: LauncherConfig, d: PlatformDefaults) -> Seq<char> {
    if config.extra_jvm_args@.len() == 0 {
        d.default_modern_jvm_arguments@
    } else {
        join_args_spec(config.extra_jvm_args@.map_values(|a: String| a@))
    }
}

/// `s` is the state the windows open with.
pub open spec fn initial_state(
    s: LauncherUiState,
    config: LauncherConfig,
    profile: LaunchProfile,
    installed: Result<Vec<String>, String>,
    manifest: Result<Vec<ManifestVersion>, String>,
    found_java: Option<String>,
    d: PlatformDefaults,
) -> bool {
    let dir = versions_dir(profile.game_directory@);
    let selected = pick_version(config.selected_version.deep_view(), listed(installed), profile.version_id@);
    let offered = offered_ids(s.downloader.manifest_versions@, config.show_all_versions);
    &&& s.main.player_name@ == profile.username@
    &&& s.main.ram_mb@ == decimal(profile.memory_mb as nat)
    &&& s.main.selected_version@ == selected
    &&& s.main.installed_versions.deep_view() == listed(installed)
    &&& s.main.versions_error.deep_view() == listing_error(installed, dir)
    &&& !s.downloader.open
    &&& s.downloader.selected_version@ == pick_version(Some(selected), offered, selected)
    &&& s.downloader.show_all_versions == config.show_all_versions
    &&& s.downloader.redownload_all_files == config.redownload_all_files
    &&& s.downloader.available_versions.deep_view() == offered
    &&& match manifest {
        Ok(m) => s.downloader.manifest_versions@ == m@ && s.downloader.versions_error is None,
        Err(e) => is_fallback_list(s.downloader.manifest_versions@, selected)
            && s.downloader.versions_error.deep_view() == Some(manifest_error_message(e@)),
    }
    &&& !s.downloader.download_running
    &&& s.downloader.download_total == 0
    &&& s.downloader.download_finished == 0
    &&& s.downloader.download_failed == 0
    &&& s.downloader.active_download is None
    &&& s.downloader.download_error is None
    &&& !s.settings.open
    &&& s.settings.download_missing_libraries == config.download_missing_libraries
    &&& s.settings.async_download == config.async_download
    &&& s.settings.download_threads@ == decimal(config.download_threads as nat)
    &&& s.settings.use_custom_java == config.use_custom_java
    &&& s.settings.custom_java_path@ == shown_java_path(config, found_java, d)
    &&& s.settings.use_custom_jvm_parameters == config.use_custom_jvm_parameters
    &&& s.settings.custom_jvm_parameters@ == shown_jvm_parameters(config, d)
    &&& s.settings.save_launch_string == config.save_launch_string
    &&& s.settings.keep_launcher_open == config.keep_launcher_open
    &&& !s.settings_dirty
    &&& s.status_message@ == "Ready"@
}

/// `Some(value)` unless it is empty.
pub fn non_empty(value: String) -> (r: Option<String>)
    ensures
        r.deep_view() == non_empty_spec(value@),
{
    let c = chars_of(value.as_str());
    if c.len() == 0 {
        None
    } else {
        Some(value)
    }
}

/// Whether `v` is among `versions`.
fn contains_version(versions: &Vec<String>, v: &str) -> (b: bool)
    ensures
        b == versions.deep_view().contains(v@),
{
    let target = chars_of(v);
    let mut i: usize = 0;
    while i < versions.len()
        invariant
            i <= versions.len(),
            target@ == v@,
            forall|j: int| 0 <= j < i ==> versions.deep_view()[j] != v@,
        decreases versions.len() - i,
    {
        let c = chars_of(versions[i].as_str());
        if chars_eq(c.as_slice(), target.as_slice()) {
            assert(versions.deep_view()[i as int] == v@);
            return true;
        }
        i += 1;
    }
    false
}

/// The version to show as chosen (see `pick_version`).
fn choose_version(preferred: &Option<String>, offered: &Vec<String>, fallback: &str) -> (r: String)
    ensures
        r@ == pick_version(preferred.deep_view(), offered.deep_view(), fallback@),
{
    match preferred {
        Some(p) => {
            if contains_version(offered, p.as_str()) {
                return p.clone();
            }
        },
        None => {},
    }
    if offered.len() > 0 {
        offered[0].clone()
    } else {
        String::from_str(fallback)
    }
}

/// The ids of the manifest entries offered for download: releases only,
/// unless snapshots and other kinds are included.
pub fn filter_manifest_versions(versions: &Vec<ManifestVersion>, include_snapshots: bool) -> (ids: Vec<String>)
    ensures
        ids.deep_view() == offered_ids(versions@, include_snapshots),
{
    let release = chars_of("release");
    let mut ids: Vec<String> = Vec::new();
    let mut i: usize = 0;
    assert(versions@.take(0) =~= Seq::<ManifestVersion>::empty());
    while i < versions.len()
        invariant
            i <= versions.len(),
            release@ == "release"@,
            ids.deep_view() == offered_ids(versions@.take(i as int), include_snapshots),
        decreases versions.len() - i,
    {
        assert(versions@.take(i + 1).drop_last() =~= versions@.take(i as int));
        assert(versions@.take(i + 1).last() == versions@[i as int]);
        let ghost prev = ids.deep_view();
        let k = chars_of(versions[i].kind.as_str());
        if include_snapshots || chars_eq(k.as_slice(), release.as_slice()) {
            let id = versions[i].id.clone();
            ids.push(id);
            assert(ids.deep_view() =~= prev.push(versions@[i as int].id@));
        }
        assert(ids.deep_view() =~= offered_ids(versions@.take(i + 1), include_snapshots));
        i += 1;
    }
    assert(versions@.take(versions.len() as int) =~= versions@);
    ids
}

/// The list offered when the version manifest cannot be loaded: the
/// selected version alone, as a release.
pub fn fallback_manifest_versions(selected_version: &str) -> (m: Vec<ManifestVersion>)
    ensures
        is_fallback_list(m@, selected_version@),
{
    let entry = ManifestVersion {
        id: String::from_str(selected_version),
        kind: String::from_str("release"),
        url: String::new(),
        sha1: None,
    };
    let mut m: Vec<ManifestVersion> = Vec::new();
    m.push(entry);
    m
}

fn text3(a: &str, b: &[char], c: &str) -> (s: Vec<char>)
    ensures
        s@ == a@ + b@ + c@,
{
    let mut out = chars_of(a);
    push_all(&mut out, b);
    let tail = chars_of(c);
    push_all(&mut out, tail.as_slice());
    out
}

fn text4(a: &str, b: &[char], c: &str, d: &[char]) -> (s: Vec<char>)
    ensures
        s@ == a@ + b@ + c@ + d@,
{
    let mut out = text3(a, b, c);
    push_all(&mut out, d);
    out
}

/// The listing error the main window shows (see `listing_error`).
fn listing_error_text(installed: &Result<Vec<String>, String>, dir: &[char]) -> (r: Option<String>)
    ensures
        r.deep_view() == listing_error(*installed, dir@),
{
    match installed {
        Ok(v) => {
            if v.len() == 0 {
                let t = text3("No installed versions found in ", dir, ". Open Downloader to install one.");
                Some(string_of(t.as_slice()))
            } else {
                None
            }
        },
        Err(e) => {
            let ec = chars_of(e.as_str());
            let mut t = text4("Could not read ", dir, ": ", ec.as_slice());
            let tail = chars_of(". Open Downloader to install a version.");
            push_all(&mut t, tail.as_slice());
            Some(string_of(t.as_slice()))
        },
    }
}

impl LauncherUiState {
    /// The state the windows open with. `installed` is the listing of the
    /// versions directory, `manifest` the version list (from the cached
    /// manifest or the network), `found_java` the Java found on the
    /// machine; the text of each error is shown as it is.
    pub fn from_config(
        config: &LauncherConfig,
        profile: &LaunchProfile,
        installed: Result<Vec<String>, String>,
        manifest: Result<Vec<ManifestVersion>, String>,
        found_java: Option<String>,
        defaults: &PlatformDefaults,
    ) -> (s: Self)
        ensures
            initial_state(s, *config, *profile, installed, manifest, found_java, *defaults),
    {
        let gd = chars_of(profile.game_directory.as_str());
        let dir = join_path_str(gd.as_slice(), "versions");
        let versions_error = listing_error_text(&installed, dir.as_slice());
        let installed_versions: Vec<String> = match installed {
            Ok(v) => v,
            Err(_) => Vec::new(),
        };
        assert(installed_versions.deep_view() =~= listed(installed));
        let selected = choose_version(&config.selected_version, &installed_versions, profile.version_id.as_str());
        let (manifest_versions, downloader_error) = match manifest {
            Ok(m) => (m, None),
            Err(e) => {
                let mut t = chars_of("Could not load Minecraft versions: ");
                let ec = chars_of(e.as_str());
                push_all(&mut t, ec.as_slice());
                (fallback_manifest_versions(selected.as_str()), Some(string_of(t.as_slice())))
            },
        };
        let available = filter_manifest_versions(&manifest_versions, config.show_all_versions);
        let downloader_selected = choose_version(&Some(selected.clone()), &available, selected.as_str());
        let java_path = match &config.java_path {
            Some(p) => p.clone(),
            None => match found_java {
                Some(j) => j,
                None => defaults.default_java_executable_path.clone(),
            },
        };
        let jvm_parameters = if config.extra_jvm_args.len() == 0 {
            defaults.default_modern_jvm_arguments.clone()
        } else {
            join_args(config.extra_jvm_args.as_slice())
        };
        let ram = format_decimal(profile.memory_mb as u64);
        let threads = format_decimal(config.download_threads as u64);
        LauncherUiState {
            main: MainWindowState {
                player_name: profile.username.clone(),
                ram_mb: string_of(ram.as_slice()),
                selected_version: selected,
                installed_versions,
                versions_error,
            },
            downloader: DownloaderWindowState {
                open: false,
                selected_version: downloader_selected,
                show_all_versions: config.show_all_versions,
                redownload_all_files: config.redownload_all_files,
                available_versions: available,
                manifest_versions,
                versions_error: downloader_error,
                download_running: false,
                download_total: 0,
                download_finished: 0,
                download_failed: 0,
                active_download: None,
                download_error: None,
            },
            settings: SettingsWindowState {
                open: false,
                download_missing_libraries: config.download_missing_libraries,
                async_download: config.async_download,
                download_threads: string_of(threads.as_slice()),
                use_custom_java: config.use_custom_java,
                custom_java_path: java_path,
                use_custom_jvm_parameters: config.use_custom_jvm_parameters,
                custom_jvm_parameters: jvm_parameters,
                save_launch_string: config.save_launch_string,
                keep_launcher_open: config.keep_launcher_open,
            },
            settings_dirty: false,
            status_message: String::from_str("Ready"),
        }
    }
}

/// The detail added to the download error for a failed job.
pub open spec fn failure_detail(label: Seq<char>, error: Seq<char>) -> Seq<char> {
    label + ": "@ + error
}

/// The download error after a job failed: the new detail on a line of its
/// own below what was there.
pub open spec fn appended_error(existing: Option<Seq<char>>, detail: Seq<char>) -> Option<Seq<char>> {
    match existing {
        Some(e) => Some(e + seq!['\n'] + detail),
        None => Some(detail),
    }
}

/// Whether a progress report can be counted without overflowing a counter.
pub open spec fn event_fits(d: DownloaderWindowState, event: DownloadEvent) -> bool {
    match event {
        DownloadEvent::JobFinished { .. } => d.download_finished < usize::MAX,
        DownloadEvent::JobFailed { .. } => d.download_finished < usize::MAX && d.download_failed < usize::MAX,
        DownloadEvent::Finished { succeeded, failed } => succeeded + failed <= usize::MAX,
        _ => true,
    }
}

/// The downloader after a progress report.
pub open spec fn after_event(old: DownloaderWindowState, new: DownloaderWindowState, event: DownloadEvent) -> bool {
    &&& new.open == old.open
    &&& new.selected_version == old.selected_version
    &&& new.show_all_versions == old.show_all_versions
    &&& new.redownload_all_files == old.redownload_all_files
    &&& new.available_versions == old.available_versions
    &&& new.manifest_versions == old.manifest_versions
    &&& new.versions_error == old.versions_error
    &&& new.download_running == old.download_running
    &&& match event {
        DownloadEvent::Started { total } => {
            &&& new.download_total == total
            &&& new.download_finished == 0
            &&& new.download_failed == 0
            &&& new.active_download == old.active_download
            &&& new.download_error == old.download_error
        },
        DownloadEvent::JobStarted { label, .. } => {
            &&& new.download_total == old.download_total
            &&& new.download_finished == old.download_finished
            &&& new.download_failed == old.download_failed
            &&& new.active_download.deep_view() == Some(label@)
            &&& new.download_error == old.download_error
        },
        DownloadEvent::JobProgress { .. } => {
            &&& new.download_total == old.download_total
            &&& new.download_finished == old.download_finished
            &&& new.download_failed == old.download_failed
            &&& new.active_download == old.active_download
            &&& new.download_error == old.download_error
        },
        DownloadEvent::JobFinished { .. } => {
            &&& new.download_total == old.download_total
            &&& new.download_finished == old.download_finished + 1
            &&& new.download_failed == old.download_failed
            &&& new.active_download == old.active_download
            &&& new.download_error == old.download_error
        },
        DownloadEvent::JobFailed { label, error, .. } => {
            &&& new.download_total == old.download_total
            &&& new.download_finished == old.download_finished + 1
            &&& new.download_failed == old.download_failed + 1
            &&& new.active_download == old.active_download
            &&& new.download_error.deep_view() == appended_error(
                old.download_error.deep_view(),
                failure_detail(label@, error@),
            )
        },
        DownloadEvent::Finished { succeeded, failed } => {
            &&& new.download_total == old.download_total
            &&& new.download_finished == succeeded + failed
            &&& new.download_failed == failed
            &&& new.active_download == old.active_download
            &&& new.download_error == old.download_error
        },
    }
}

impl DownloaderWindowState {
    /// Recomputes the versions offered after the snapshot switch changed,
    /// keeping the chosen version when it is still offered.
    pub fn sync_available_versions(&mut self)
        ensures
            final(self).available_versions.deep_view() == offered_ids(
                old(self).manifest_versions@,
                old(self).show_all_versions,
            ),
            final(self).selected_version@ == pick_version(
                Some(old(self).selected_version@),
                final(self).available_versions.deep_view(),
                old(self).selected_version@,
            ),
            final(self).open == old(self).open,
            final(self).show_all_versions == old(self).show_all_versions,
            final(self).redownload_all_files == old(self).redownload_all_files,
            final(self).manifest_versions == old(self).manifest_versions,
            final(self).versions_error == old(self).versions_error,
            final(self).download_running == old(self).download_running,
            final(self).download_total == old(self).download_total,
            final(self).download_finished == old(self).download_finished,
            final(self).download_failed == old(self).download_failed,
            final(self).active_download == old(self).active_download,
            final(self).download_error == old(self).download_error,
    {
        let available = filter_manifest_versions(&self.manifest_versions, self.show_all_versions);
        let current = self.selected_version.clone();
        let chosen = choose_version(&Some(current), &available, self.selected_version.as_str());
        self.available_versions = available;
        self.selected_version = chosen;
    }

    /// Takes in one progress report of a running download.
    pub fn apply_download_event(&mut self, event: DownloadEvent)
        requires
            event_fits(*old(self), event),
        ensures
            after_event(*old(self), *final(self), event),
    {
        match event {
            DownloadEvent::Started { total } => {
                self.download_total = total;
                self.download_finished = 0;
                self.download_failed = 0;
            },
            DownloadEvent::JobStarted { label, .. } => {
                self.active_download = Some(label);
            },
            DownloadEvent::JobProgress { .. } => {},
            DownloadEvent::JobFinished { .. } => {
                self.download_finished = self.download_finished + 1;
            },
            DownloadEvent::JobFailed { label, error, .. } => {
                self.download_finished = self.download_finished + 1;
                self.download_failed = self.download_failed + 1;
                let lc = chars_of(label.as_str());
                let ec = chars_of(error.as_str());
                let mut detail = lc;
                let sep = chars_of(": ");
                push_all(&mut detail, sep.as_slice());
                push_all(&mut detail, ec.as_slice());
                assert(detail@ == failure_detail(label@, error@));
                let updated = match &self.download_error {
                    Some(existing) => {
                        let mut t = chars_of(existing.as_str());
                        t.push('\n');
                        push_all(&mut t, detail.as_slice());
                        assert(t@ =~= existing@ + seq!['\n'] + detail@);
                        t
                    },
                    None => detail,
                };
                assert(Some(updated@) == appended_error(self.download_error.deep_view(), failure_detail(label@, error@)));
                self.download_error = Some(string_of(updated.as_slice()));
            },
            DownloadEvent::Finished { succeeded, failed } => {
                self.download_finished = succeeded + failed;
                self.download_failed = failed;
            },
        }
    }
}

impl MainWindowState {
    /// Takes in a new listing of the versions directory under
    /// `game_directory`: the listed versions are shown, the chosen one kept
    /// when still installed and replaced by the first otherwise; a failed
    /// listing only sets the error shown.
    pub fn refresh_installed_versions(&mut self, listing: Result<Vec<String>, String>, game_directory: &str)
        ensures
            final(self).player_name == old(self).player_name,
            final(self).ram_mb == old(self).ram_mb,
            match listing {
                Ok(v) => {
                    &&& final(self).installed_versions.deep_view() == v.deep_view()
                    &&& final(self).versions_error.deep_view() == (if v@.len() == 0 {
                        Some(no_versions_message(versions_dir(game_directory@)))
                    } else {
                        None
                    })
                    &&& final(self).selected_version@ == pick_version(
                        Some(old(self).selected_version@),
                        v.deep_view(),
                        old(self).selected_version@,
                    )
                },
                Err(e) => {
                    &&& final(self).installed_versions == old(self).installed_versions
                    &&& final(self).selected_version == old(self).selected_version
                    &&& final(self).versions_error.deep_view() == Some(
                        reread_failed_message(versions_dir(game_directory@), e@),
                    )
                },
            },
    {
        let gd = chars_of(game_directory);
        let dir = join_path_str(gd.as_slice(), "versions");
        match listing {
            Ok(v) => {
                if v.len() == 0 {
                    let t = text3("No installed versions found in ", dir.as_slice(), ". Open Downloader to install one.");
                    self.versions_error = Some(string_of(t.as_slice()));
                } else {
                    self.versions_error = None;
                }
                let current = self.selected_version.clone();
                let chosen = choose_version(&Some(current), &v, self.selected_version.as_str());
                self.selected_version = chosen;
                self.installed_versions = v;
            },
            Err(e) => {
                let ec = chars_of(e.as_str());
                let t = text4("Could not read ", dir.as_slice(), ": ", ec.as_slice());
                self.versions_error = Some(string_of(t.as_slice()));
            },
        }
    }
}

/// The configuration after the windows' contents were written into it:
/// names without spaces (absent when empty), numbers as read (the thread
/// count kept when it does not read as one), launch parameters split as
/// arguments; the game directory and game arguments stay as they were.
pub open spec fn applied_config(state: LauncherUiState, old: LauncherConfig, new: LauncherConfig) -> bool {
    &&& new.username.deep_view() == non_empty_spec(without_spaces(state.main.player_name@))
    &&& new.selected_version.deep_view() == non_empty_spec(without_spaces(state.main.selected_version@))
    &&& new.memory_mb == parsed_u32(state.main.ram_mb@)
    &&& new.download_missing_libraries == state.settings.download_missing_libraries
    &&& new.async_download == state.settings.async_download
    &&& new.download_threads == parsed_usize_or(state.settings.download_threads@, old.download_threads)
    &&& new.use_custom_java == state.settings.use_custom_java
    &&& new.java_path.deep_view() == non_empty_spec(state.settings.custom_java_path@)
    &&& new.use_custom_jvm_parameters == state.settings.use_custom_jvm_parameters
    &&& new.extra_jvm_args.deep_view() == parse_args(state.settings.custom_jvm_parameters@)
    &&& new.save_launch_string == state.settings.save_launch_string
    &&& new.keep_launcher_open == state.settings.keep_launcher_open
    &&& new.show_all_versions == state.downloader.show_all_versions
    &&& new.redownload_all_files == state.downloader.redownload_all_files
    &&& new.game_directory == old.game_directory
    &&& new.extra_game_args == old.extra_game_args
}

/// `v` without spaces, absent when nothing is left.
fn trimmed_name(v: &String) -> (r: Option<String>)
    ensures
        r.deep_view() == non_empty_spec(without_spaces(v@)),
{
    let c = chars_of(v.as_str());
    let space: Vec<char> = vec![' '];
    let empty: Vec<char> = Vec::new();
    assert(space@ =~= seq![' ']);
    assert(empty@ =~= Seq::<char>::empty());
    let stripped = replace_seq(c.as_slice(), space.as_slice(), empty.as_slice());
    non_empty(string_of(stripped.as_slice()))
}

/// `v` read as a `u32`.
fn read_u32(v: &String) -> (r: Option<u32>)
    ensures
        r == parsed_u32(v@),
{
    let c = chars_of(v.as_str());
    match parse_decimal(c.as_slice(), 0xffff_ffffu64) {
        Some(n) => Some(n as u32),
        None => None,
    }
}

/// Whether two optional strings hold the same text.
fn same_text(a: &Option<String>, b: &Option<String>) -> (eq: bool)
    ensures
        eq == (a.deep_view() == b.deep_view()),
{
    match (a, b) {
        (Some(x), Some(y)) => {
            let xc = chars_of(x.as_str());
            let yc = chars_of(y.as_str());
            chars_eq(xc.as_slice(), yc.as_slice())
        },
        (None, None) => true,
        _ => false,
    }
}

/// Writes what the windows hold into the configuration.
pub fn apply_state_to(state: &LauncherUiState, config: &mut LauncherConfig)
    ensures
        applied_config(*state, *old(config), *final(config)),
{
    config.username = trimmed_name(&state.main.player_name);
    config.selected_version = trimmed_name(&state.main.selected_version);
    config.memory_mb = read_u32(&state.main.ram_mb);
    config.download_missing_libraries = state.settings.download_missing_libraries;
    config.async_download = state.settings.async_download;
    let tc = chars_of(state.settings.download_threads.as_str());
    match parse_decimal(tc.as_slice(), usize::MAX as u64) {
        Some(n) => {
            config.download_threads = n as usize;
        },
        None => {},
    }
    config.use_custom_java = state.settings.use_custom_java;
    config.java_path = non_empty(state.settings.custom_java_path.clone());
    config.use_custom_jvm_parameters = state.settings.use_custom_jvm_parameters;
    config.extra_jvm_args = parse_arg_string(state.settings.custom_jvm_parameters.as_str());
    config.save_launch_string = state.settings.save_launch_string;
    config.keep_launcher_open = state.settings.keep_launcher_open;
    config.show_all_versions = state.downloader.show_all_versions;
    config.redownload_all_files = state.downloader.redownload_all_files;
}

/// Whether the player name, chosen version or memory in the windows, as
/// they would be written into a configuration, differ from `persisted`.
pub open spec fn main_fields_differ(state: LauncherUiState, persisted: LauncherConfig) -> bool {
    ||| non_empty_spec(without_spaces(state.main.player_name@)) != persisted.username.deep_view()
    ||| non_empty_spec(without_spaces(state.main.selected_version@)) != persisted.selected_version.deep_view()
    ||| parsed_u32(state.main.ram_mb@) != persisted.memory_mb
}

/// Law: once the windows' contents are written into a configuration, the
/// player name, version and memory no longer differ from it, so saving it
/// again is not needed.
pub proof fn lemma_applied_main_fields_match(state: LauncherUiState, old: LauncherConfig, new: LauncherConfig)
    requires
        applied_config(state, old, new),
    ensures
        !main_fields_differ(state, new),
{
}

/// Whether the player name, chosen version or memory in the windows differ
/// from the saved configuration.
pub fn main_fields_changed(state: &LauncherUiState, persisted: &LauncherConfig) -> (changed: bool)
    ensures
        changed == main_fields_differ(*state, *persisted),
{
    let user = trimmed_name(&state.main.player_name);
    let version = trimmed_name(&state.main.selected_version);
    let memory = read_u32(&state.main.ram_mb);
    let same_memory = match (memory, persisted.memory_mb) {
        (Some(a), Some(b)) => a == b,
        (None, None) => true,
        _ => false,
    };
    !same_text(&user, &persisted.username) || !same_text(&version, &persisted.selected_version)
        || !same_memory
}

impl LauncherUiState {
    /// Starts a download of the version chosen in the downloader, unless one
    /// is running; says whether it started.
    pub fn begin_download(&mut self) -> (started: bool)
        ensures
            started == !old(self).downloader.download_running,
            started ==> {
                &&& final(self).main.selected_version == old(self).downloader.selected_version
                &&& final(self).downloader.download_running
                &&& final(self).downloader.download_total == 0
                &&& final(self).downloader.download_finished == 0
                &&& final(self).downloader.download_failed == 0
                &&& final(self).downloader.active_download is None
                &&& final(self).downloader.download_error is None
                &&& final(self).status_message@ == "Downloading Minecraft "@
                    + old(self).downloader.selected_version@ + "..."@
            },
            !started ==> {
                &&& final(self).main == old(self).main
                &&& final(self).downloader == old(self).downloader
                &&& final(self).status_message@ == "Download already in progress"@
            },
            final(self).settings == old(self).settings,
            final(self).settings_dirty == old(self).settings_dirty,
            final(self).main.player_name == old(self).main.player_name,
            final(self).main.ram_mb == old(self).main.ram_mb,
            final(self).main.installed_versions == old(self).main.installed_versions,
            final(self).main.versions_error == old(self).main.versions_error,
            final(self).downloader.open == old(self).downloader.open,
            final(self).downloader.selected_version == old(self).downloader.selected_version,
            final(self).downloader.available_versions == old(self).downloader.available_versions,
            final(self).downloader.manifest_versions == old(self).downloader.manifest_versions,
            final(self).downloader.show_all_versions == old(self).downloader.show_all_versions,
            final(self).downloader.redownload_all_files == old(self).downloader.redownload_all_files,
            final(self).downloader.versions_error == old(self).downloader.versions_error,
    {
        if self.downloader.download_running {
            self.status_message = String::from_str("Download already in progress");
            return false;
        }
        let version = self.downloader.selected_version.clone();
        let vc = chars_of(version.as_str());
        let t = text3("Downloading Minecraft ", vc.as_slice(), "...");
        self.main.selected_version = version;
        self.downloader.download_running = true;
        self.downloader.download_total = 0;
        self.downloader.download_finished = 0;
        self.downloader.download_failed = 0;
        self.downloader.active_download = None;
        self.downloader.download_error = None;
        self.status_message = string_of(t.as_slice());
        true
    }

    /// Takes in how the download worker ended: the version it downloaded,
    /// the error it reported, or nothing when it panicked.
    pub fn finish_download(&mut self, outcome: Option<Result<String, String>>)
        ensures
            !final(self).downloader.download_running,
            match outcome {
                Some(Ok(v)) => {
                    &&& final(self).status_message@ == "Downloaded Minecraft "@ + v@
                    &&& final(self).downloader.active_download is None
                    &&& final(self).downloader.download_error == old(self).downloader.download_error
                },
                Some(Err(e)) => {
                    &&& final(self).status_message@ == "Download failed: "@ + e@
                    &&& final(self).downloader.active_download == old(self).downloader.active_download
                    &&& final(self).downloader.download_error.deep_view() == match old(
                        self,
                    ).downloader.download_error {
                        Some(x) => Some(x@),
                        None => Some(e@),
                    }
                },
                None => {
                    &&& final(self).status_message@ == "Download failed: download worker panicked"@
                    &&& final(self).downloader.active_download == old(self).downloader.active_download
                    &&& final(self).downloader.download_error.deep_view() == Some(
                        "download worker panicked"@,
                    )
                },
            },
            final(self).main == old(self).main,
            final(self).settings == old(self).settings,
            final(self).settings_dirty == old(self).settings_dirty,
            final(self).downloader.open == old(self).downloader.open,
            final(self).downloader.selected_version == old(self).downloader.selected_version,
            final(self).downloader.available_versions == old(self).downloader.available_versions,
            final(self).downloader.manifest_versions == old(self).downloader.manifest_versions,
            final(self).downloader.show_all_versions == old(self).downloader.show_all_versions,
            final(self).downloader.redownload_all_files == old(self).downloader.redownload_all_files,
            final(self).downloader.versions_error == old(self).downloader.versions_error,
            final(self).downloader.download_total == old(self).downloader.download_total,
            final(self).downloader.download_finished == old(self).downloader.download_finished,
            final(self).downloader.download_failed == old(self).downloader.download_failed,
    {
        self.downloader.download_running = false;
        match outcome {
            Some(Ok(version)) => {
                let mut t = chars_of("Downloaded Minecraft ");
                let vc = chars_of(version.as_str());
                push_all(&mut t, vc.as_slice());
                self.status_message = string_of(t.as_slice());
                self.downloader.active_download = None;
            },
            Some(Err(error)) => {
                let mut t = chars_of("Download failed: ");
                let ec = chars_of(error.as_str());
                push_all(&mut t, ec.as_slice());
                self.status_message = string_of(t.as_slice());
                if self.downloader.download_error.is_none() {
                    self.downloader.download_error = Some(error);
                }
            },
            None => {
                self.status_message = String::from_str("Download failed: download worker panicked");
                self.downloader.download_error = Some(String::from_str("download worker panicked"));
            },
        }
    }
}


/// `a` comes before `b` comparing characters by code point, as `str`
/// compares.
pub open spec fn text_less(a: Seq<char>, b: Seq<char>) -> bool
    decreases a.len(),
{
    if a.len() == 0 {
        b.len() > 0
    } else if b.len() == 0 {
        false
    } else if a[0] != b[0] {
        (a[0] as u32) < (b[0] as u32)
    } else {
        text_less(a.drop_first(), b.drop_first())
    }
}

/// The order installed versions are listed in: ignoring ASCII case first,
/// then as written.
pub open spec fn listed_before(a: Seq<char>, b: Seq<char>) -> bool {
    ||| text_less(crate::text::ascii_lowercase(a), crate::text::ascii_lowercase(b))
    ||| (crate::text::ascii_lowercase(a) == crate::text::ascii_lowercase(b) && text_less(a, b))
}

/// No name comes after one that it should precede.
pub open spec fn listed_in_order(names: Seq<Seq<char>>) -> bool {
    forall|i: int, j: int| 0 <= i < j < names.len() ==> !listed_before(#[trigger] names[j], #[trigger] names[i])
}

proof fn lemma_text_less_irreflexive(a: Seq<char>)
    ensures
        !text_less(a, a),
    decreases a.len(),
{
    if a.len() > 0 {
        lemma_text_less_irreflexive(a.drop_first());
    }
}

proof fn lemma_text_less_transitive(a: Seq<char>, b: Seq<char>, c: Seq<char>)
    requires
        text_less(a, b),
        text_less(b, c),
    ensures
        text_less(a, c),
    decreases a.len(),
{
    if a.len() > 0 && b.len() > 0 && c.len() > 0 && a[0] == b[0] && b[0] == c[0] {
        lemma_text_less_transitive(a.drop_first(), b.drop_first(), c.drop_first());
    }
}

proof fn lemma_listed_before_order(a: Seq<char>, b: Seq<char>, c: Seq<char>)
    ensures
        !listed_before(a, a),
        listed_before(a, b) && listed_before(b, c) ==> listed_before(a, c),
{
    let la = crate::text::ascii_lowercase(a);
    let lb = crate::text::ascii_lowercase(b);
    let lc = crate::text::ascii_lowercase(c);
    lemma_text_less_irreflexive(a);
    lemma_text_less_irreflexive(la);
    if listed_before(a, b) && listed_before(b, c) {
        if text_less(la, lb) && text_less(lb, lc) {
            lemma_text_less_transitive(la, lb, lc);
        } else if text_less(a, b) && text_less(b, c) && la == lb && lb == lc {
            lemma_text_less_transitive(a, b, c);
        }
    }
}

fn text_less_exec(a: &[char], b: &[char]) -> (r: bool)
    ensures
        r == text_less(a@, b@),
{
    let mut i: usize = 0;
    assert(a@.skip(0) =~= a@);
    assert(b@.skip(0) =~= b@);
    while i < a.len() && i < b.len() && a[i] == b[i]
        invariant
            i <= a.len(),
            i <= b.len(),
            text_less(a@, b@) == text_less(a@.skip(i as int), b@.skip(i as int)),
        decreases a.len() - i,
    {
        assert(a@.skip(i as int).drop_first() =~= a@.skip(i + 1));
        assert(b@.skip(i as int).drop_first() =~= b@.skip(i + 1));
        assert(a@.skip(i as int)[0] == a@[i as int]);
        assert(b@.skip(i as int)[0] == b@[i as int]);
        i += 1;
    }
    if i == a.len() {
        i < b.len()
    } else if i == b.len() {
        false
    } else {
        assert(a@.skip(i as int)[0] == a@[i as int]);
        assert(b@.skip(i as int)[0] == b@[i as int]);
        (a[i] as u32) < (b[i] as u32)
    }
}

fn listed_before_exec(a: &[char], la: &[char], b: &[char], lb: &[char]) -> (r: bool)
    requires
        la@ == crate::text::ascii_lowercase(a@),
        lb@ == crate::text::ascii_lowercase(b@),
    ensures
        r == listed_before(a@, b@),
{
    text_less_exec(la, lb) || (chars_eq(la, lb) && text_less_exec(a, b))
}

/// Installed version names in listing order (see `listed_before`).
pub fn sort_version_names(names: Vec<String>) -> (sorted: Vec<String>)
    ensures
        sorted.deep_view().to_multiset() == names.deep_view().to_multiset(),
        listed_in_order(sorted.deep_view()),
{
    let ghost input = names.deep_view();
    let mut out: Vec<String> = Vec::new();
    let mut i: usize = 0;
    assert(input.take(0) =~= Seq::<Seq<char>>::empty());
    assert(out.deep_view() =~= input.take(0));
    while i < names.len()
        invariant
            i <= names.len(),
            input == names.deep_view(),
            out.deep_view().to_multiset() == input.take(i as int).to_multiset(),
            listed_in_order(out.deep_view()),
        decreases names.len() - i,
    {
        let x = names[i].clone();
        let xc = chars_of(x.as_str());
        let xl = crate::text::to_ascii_lowercase(xc.as_slice());
        let mut k: usize = 0;
        while k < out.len()
            invariant
                k <= out.len(),
                xc@ == x@,
                xl@ == crate::text::ascii_lowercase(x@),
                forall|j: int| 0 <= j < k ==> !listed_before(x@, #[trigger] out.deep_view()[j]),
            ensures
                k <= out.len(),
                forall|j: int| 0 <= j < k ==> !listed_before(x@, #[trigger] out.deep_view()[j]),
                k < out.len() ==> listed_before(x@, out.deep_view()[k as int]),
            decreases out.len() - k,
        {
            let oc = chars_of(out[k].as_str());
            let ol = crate::text::to_ascii_lowercase(oc.as_slice());
            if listed_before_exec(xc.as_slice(), xl.as_slice(), oc.as_slice(), ol.as_slice()) {
                assert(out.deep_view()[k as int] == out@[k as int]@);
                break;
            }
            assert(out.deep_view()[k as int] == out@[k as int]@);
            k += 1;
        }
        let ghost before = out.deep_view();
        out.insert(k, x);
        let ghost after = out.deep_view();
        proof {
            assert(after =~= before.insert(k as int, x@));
            assert(input.take(i + 1) =~= input.take(i as int).push(input[i as int]));
            assert(input[i as int] == x@);
            vstd::seq_lib::to_multiset_insert(before, k as int, x@);
            vstd::seq_lib::to_multiset_build(input.take(i as int), input[i as int]);
            assert forall|a: int, b: int| 0 <= a < b < after.len() implies !listed_before(
                #[trigger] after[b],
                #[trigger] after[a],
            ) by {
                lemma_listed_before_order(after[b], x@, after[a]);
                if a < k && b < k {
                    assert(after[a] == before[a] && after[b] == before[b]);
                } else if a < k && b == k {
                    assert(after[a] == before[a]);
                } else if a < k {
                    assert(after[a] == before[a] && after[b] == before[b - 1]);
                    lemma_listed_before_order(before[b - 1], before[a], before[b - 1]);
                    if listed_before(before[b - 1], before[a]) {
                        assert(b - 1 > a);
                    }
                } else if a == k {
                    assert(after[b] == before[b - 1]);
                    lemma_listed_before_order(before[b - 1], x@, before[k as int]);
                    if listed_before(before[b - 1], x@) {
                        if b - 1 > k {
                            assert(!listed_before(before[b - 1], before[k as int]));
                        }
                    }
                } else {
                    assert(after[a] == before[a - 1] && after[b] == before[b - 1]);
                }
            }
        }
        i += 1;
    }
    assert(input.take(names.len() as int) =~= input);
    out
}

} // verus!
