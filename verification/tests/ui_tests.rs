use vortex_rust_launcher::config::{LauncherConfig, PlatformDefaults};
use vortex_rust_launcher::download::{DownloadEvent, ManifestVersion};
use vortex_rust_launcher::minecraft::LaunchProfile;
use vortex_rust_launcher::ui::{
    apply_state_to, fallback_manifest_versions, filter_manifest_versions, main_fields_changed, non_empty,
    sort_version_names, LauncherUiState,
};

fn defaults() -> PlatformDefaults {
    PlatformDefaults {
        working_directory: ".minecraft".to_owned(),
        default_java_executable_path: "java".to_owned(),
        default_ram_mb: 2048,
        default_modern_jvm_arguments: "-XX:+UseG1GC".to_owned(),
        default_download_missing_libraries: true,
        default_download_threads: 4,
        default_async_download: true,
    }
}

fn entry(id: &str, kind: &str) -> ManifestVersion {
    ManifestVersion { id: id.to_owned(), kind: kind.to_owned(), url: format!("https://example/{id}.json"), sha1: None }
}

fn cached_manifest() -> Vec<ManifestVersion> {
    vec![entry("24w01a", "snapshot"), entry("1.21", "release"), entry("1.20.4", "release")]
}

fn state(installed: Result<Vec<String>, String>, manifest: Result<Vec<ManifestVersion>, String>) -> LauncherUiState {
    let config = LauncherConfig::with_platform_defaults(&defaults());
    let mut profile = LaunchProfile::from_config(&config);
    profile.game_directory = "/games/mc".to_owned();
    LauncherUiState::from_config(&config, &profile, installed, manifest, None, &defaults())
}

#[test]
fn downloader_versions_use_cached_manifest_and_snapshot_toggle() {
    let mut state = state(Ok(Vec::new()), Ok(cached_manifest()));

    assert_eq!(state.downloader.available_versions, vec!["1.21", "1.20.4"]);
    state.downloader.show_all_versions = true;
    state.downloader.sync_available_versions();
    assert_eq!(state.downloader.available_versions, vec!["24w01a", "1.21", "1.20.4"]);
    assert!(state.downloader.versions_error.is_none());
}

#[test]
fn window_state_opens_with_installed_versions_and_settings() {
    let s = state(Ok(vec!["1.20.4".to_owned(), "1.8.9".to_owned()]), Ok(cached_manifest()));
    assert_eq!(s.main.selected_version, "1.20.4");
    assert_eq!(s.main.versions_error, None);
    assert_eq!(s.main.ram_mb, "2048");
    assert_eq!(s.downloader.selected_version, "1.20.4");
    assert_eq!(s.settings.download_threads, "4");
    assert_eq!(s.settings.custom_java_path, "java");
    assert_eq!(s.settings.custom_jvm_parameters, "-XX:+UseG1GC");
    assert_eq!(s.status_message, "Ready");
    assert!(!s.settings_dirty);
}

#[test]
fn missing_or_unreadable_versions_are_explained() {
    let empty = state(Ok(Vec::new()), Err("offline".to_owned()));
    assert_eq!(
        empty.main.versions_error,
        Some("No installed versions found in /games/mc/versions. Open Downloader to install one.".to_owned())
    );
    assert_eq!(empty.downloader.versions_error, Some("Could not load Minecraft versions: offline".to_owned()));
    assert_eq!(empty.downloader.manifest_versions, fallback_manifest_versions(&empty.main.selected_version));
    let broken = state(Err("permission denied".to_owned()), Ok(cached_manifest()));
    assert_eq!(
        broken.main.versions_error,
        Some("Could not read /games/mc/versions: permission denied. Open Downloader to install a version.".to_owned())
    );
}

#[test]
fn progress_reports_update_the_downloader() {
    let mut s = state(Ok(Vec::new()), Ok(cached_manifest()));
    let d = &mut s.downloader;
    d.apply_download_event(DownloadEvent::Started { total: 3 });
    d.apply_download_event(DownloadEvent::JobStarted { index: 0, label: "client jar 1.21".to_owned() });
    d.apply_download_event(DownloadEvent::JobFinished { index: 0, destination: "x".to_owned() });
    d.apply_download_event(DownloadEvent::JobFailed { index: 1, label: "a".to_owned(), error: "e1".to_owned() });
    d.apply_download_event(DownloadEvent::JobFailed { index: 2, label: "b".to_owned(), error: "e2".to_owned() });
    assert_eq!(d.download_total, 3);
    assert_eq!(d.download_finished, 3);
    assert_eq!(d.download_failed, 2);
    assert_eq!(d.active_download, Some("client jar 1.21".to_owned()));
    assert_eq!(d.download_error, Some("a: e1\nb: e2".to_owned()));
    d.apply_download_event(DownloadEvent::Finished { succeeded: 1, failed: 2 });
    assert_eq!(d.download_finished, 3);
}

#[test]
fn download_start_and_finish_update_status() {
    let mut s = state(Ok(Vec::new()), Ok(cached_manifest()));
    assert!(s.begin_download());
    assert_eq!(s.status_message, "Downloading Minecraft 1.21...");
    assert_eq!(s.main.selected_version, "1.21");
    assert!(!s.begin_download());
    assert_eq!(s.status_message, "Download already in progress");
    s.finish_download(Some(Err("2 downloads failed".to_owned())));
    assert!(!s.downloader.download_running);
    assert_eq!(s.status_message, "Download failed: 2 downloads failed");
    assert_eq!(s.downloader.download_error, Some("2 downloads failed".to_owned()));
    s.finish_download(Some(Ok("1.21".to_owned())));
    assert_eq!(s.status_message, "Downloaded Minecraft 1.21");
}

#[test]
fn refreshed_listing_keeps_or_replaces_the_choice() {
    let mut s = state(Ok(vec!["1.8.9".to_owned()]), Ok(cached_manifest()));
    s.main.refresh_installed_versions(Ok(vec!["1.20.4".to_owned(), "1.8.9".to_owned()]), "/games/mc");
    assert_eq!(s.main.selected_version, "1.8.9");
    s.main.refresh_installed_versions(Ok(vec!["1.21".to_owned()]), "/games/mc");
    assert_eq!(s.main.selected_version, "1.21");
    s.main.refresh_installed_versions(Err("gone".to_owned()), "/games/mc");
    assert_eq!(s.main.versions_error, Some("Could not read /games/mc/versions: gone".to_owned()));
    assert_eq!(s.main.installed_versions, vec!["1.21".to_owned()]);
}

#[test]
fn window_contents_flow_back_into_the_config() {
    let mut s = state(Ok(vec!["1.20.4".to_owned()]), Ok(cached_manifest()));
    let mut config = LauncherConfig::with_platform_defaults(&defaults());
    let persisted = config.clone();
    s.main.player_name = " Ste ve ".to_owned();
    s.main.ram_mb = "4096".to_owned();
    s.settings.download_threads = "many".to_owned();
    s.settings.custom_java_path = String::new();
    s.settings.custom_jvm_parameters = "-Da=\"b c\" -Xss1M".to_owned();
    assert!(main_fields_changed(&s, &persisted));
    apply_state_to(&s, &mut config);
    assert_eq!(config.username, Some("Steve".to_owned()));
    assert_eq!(config.selected_version, Some("1.20.4".to_owned()));
    assert_eq!(config.memory_mb, Some(4096));
    assert_eq!(config.download_threads, 4);
    assert_eq!(config.java_path, None);
    assert_eq!(config.extra_jvm_args, vec!["-Da=b c".to_owned(), "-Xss1M".to_owned()]);
    assert!(!main_fields_changed(&s, &config));
}

#[test]
fn offered_versions_and_small_helpers() {
    assert_eq!(filter_manifest_versions(&cached_manifest(), false), vec!["1.21", "1.20.4"]);
    assert_eq!(non_empty(String::new()), None);
    assert_eq!(non_empty("x".to_owned()), Some("x".to_owned()));
    let fallback = fallback_manifest_versions("1.20.4");
    assert_eq!(fallback, vec![ManifestVersion { id: "1.20.4".to_owned(), kind: "release".to_owned(), url: String::new(), sha1: None }]);
}

#[test]
fn installed_versions_are_listed_ignoring_case_then_as_written() {
    let names = vec!["b".to_owned(), "Fabric".to_owned(), "1.8.9".to_owned(), "a".to_owned(), "B".to_owned(), "1.20.4".to_owned()];
    assert_eq!(sort_version_names(names), vec!["1.20.4", "1.8.9", "a", "B", "b", "Fabric"]);
    assert_eq!(sort_version_names(Vec::new()), Vec::<String>::new());
}
