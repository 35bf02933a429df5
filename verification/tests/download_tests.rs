use vortex_rust_launcher::config::{LauncherConfig, PlatformDefaults};
use vortex_rust_launcher::download::{
    asset_index_job, asset_job, check_download, client_jar_job, dedupe_jobs_by_destination, download_concurrency,
    existing_file_is_valid, logging_config_job, parse_libraries, resolve_selected_version, retry_backoff_ms,
    select_manifest_versions, should_retry, temporary_download_path, version_json_job, DownloadError,
    DownloadJob, DownloadKind, IoErrorKind, ManifestVersion,
};
use vortex_rust_launcher::minecraft::{
    AssetIndex, DownloadInfo, LaunchContext, LibraryDownloads, LibraryJson, MinecraftVersionJson, VersionDownloads,
};
use vortex_rust_launcher::plan::{asset_index_file, asset_jobs_from_objects, core_download_jobs, pending_jobs, run_result};
use vortex_rust_launcher::download::DownloadSummary;
use vortex_rust_launcher::sha1::{sha1_hex, Sha1};

fn linux_context() -> LaunchContext {
    LaunchContext {
        os: "linux".to_owned(),
        arch: "x86_64".to_owned(),
        demo_mode: false,
        resolution: None,
        quick_play_support: false,
        quick_play_singleplayer: false,
        quick_play_multiplayer: false,
        quick_play_realms: false,
        custom_features: Vec::new(),
    }
}

fn defaults() -> PlatformDefaults {
    PlatformDefaults {
        working_directory: ".minecraft".to_owned(),
        default_java_executable_path: "java".to_owned(),
        default_ram_mb: 2048,
        default_modern_jvm_arguments: "-XX:+UseG1GC".to_owned(),
        default_download_missing_libraries: true,
        default_download_threads: 4,
        default_async_download: true,
    }
}

fn version(id: &str) -> MinecraftVersionJson {
    MinecraftVersionJson {
        id: Some(id.to_owned()),
        java_version: None,
        main_class: None,
        assets: None,
        asset_index: None,
        downloads: None,
        libraries: Vec::new(),
        arguments: None,
        minecraft_arguments: None,
        inherits_from: None,
        jar: None,
        logging: None,
    }
}

fn manifest_entry(id: &str, kind: &str) -> ManifestVersion {
    ManifestVersion {
        id: id.to_owned(),
        kind: kind.to_owned(),
        url: format!("https://example/{id}.json"),
        sha1: None,
    }
}

fn job(url: &str, destination: &str, label: &str) -> DownloadJob {
    DownloadJob::new(DownloadKind::Library, url.to_owned(), destination.to_owned(), label.to_owned())
}

#[test]
fn manifest_parser_filters_snapshots_like_original_downloader() {
    let manifest = vec![manifest_entry("1.20.4", "release"), manifest_entry("24w01a", "snapshot")];

    let releases = select_manifest_versions(&manifest, false);
    assert_eq!(releases.iter().map(|v| v.id.as_str()).collect::<Vec<_>>(), vec!["1.20.4"]);

    let all = select_manifest_versions(&manifest, true);
    assert_eq!(all.len(), 2);
}

#[test]
fn duplicate_download_destinations_are_scheduled_once() {
    let destination = ".minecraft/libraries/example.jar".to_owned();
    let jobs = vec![
        job("https://example/first.jar", &destination, "first"),
        job("https://example/second.jar", &destination, "second"),
    ];

    let deduped = dedupe_jobs_by_destination(jobs);

    assert_eq!(deduped.len(), 1);
    assert_eq!(deduped[0].url, "https://example/first.jar");
    assert_eq!(deduped[0].destination, destination);
}

#[test]
fn classifier_only_library_does_not_invent_artifact_download() {
    let native_classifier = "natives-linux";
    let mut v = version("1.0");
    v.libraries = vec![LibraryJson {
        name: "net.java.jinput:jinput-platform:2.0.5".to_owned(),
        downloads: Some(LibraryDownloads {
            artifact: None,
            classifiers: Some(vec![(
                native_classifier.to_owned(),
                DownloadInfo {
                    id: None,
                    sha1: None,
                    size: None,
                    url: Some("https://example/native.jar".to_owned()),
                    path: Some(format!(
                        "net/java/jinput/jinput-platform/2.0.5/jinput-platform-2.0.5-{native_classifier}.jar"
                    )),
                },
            )]),
        }),
        url: None,
        natives: Some(vec![
            ("linux".to_owned(), "natives-linux".to_owned()),
            ("osx".to_owned(), "natives-osx".to_owned()),
            ("windows".to_owned(), "natives-windows".to_owned()),
        ]),
        extract: None,
        rules: Vec::new(),
    }];

    let libraries = parse_libraries(&v, ".minecraft", &linux_context());

    assert_eq!(libraries.len(), 1);
    assert!(libraries[0].artifact.is_none());
    assert!(libraries[0].native.is_some());
}

#[test]
fn bundled_sha1_matches_known_vector() {
    assert_eq!(sha1_hex(b"abc"), "a9993e364706816aba3e25717850c26c9cd0d89d");
}

#[test]
fn sha1_fed_in_pieces_matches_one_piece_and_other_vectors() {
    assert_eq!(sha1_hex(b""), "da39a3ee5e6b4b0d3255bfef95601890afd80709");
    let long = b"abcdbcdecdefdefgefghfghighijhijkijkljklmklmnlmnomnopnopq";
    assert_eq!(sha1_hex(long), "84983e441c3bd26ebaae4aa1f95129e5e54670f1");
    let mut s = Sha1::new();
    s.update(&long[..10]);
    s.update(&long[10..]);
    assert_eq!(s.finalize_hex(), sha1_hex(long));
    let big = vec![b'a'; 1000];
    let mut chunked = Sha1::new();
    for piece in big.chunks(70) {
        chunked.update(piece);
    }
    assert_eq!(chunked.finalize_hex(), sha1_hex(&big));
}

#[test]
fn version_json_job_uses_manifest_url_and_versions_directory() {
    let mut manifest = vec![manifest_entry("1.20.4", "release")];
    manifest[0].sha1 = Some("abc".to_owned());
    let j = version_json_job(&manifest, ".minecraft", "1.20.4").unwrap();
    assert_eq!(j.kind, DownloadKind::VersionJson);
    assert_eq!(j.url, "https://example/1.20.4.json");
    assert_eq!(j.destination, ".minecraft/versions/1.20.4/1.20.4.json");
    assert_eq!(j.expected_sha1, Some("abc".to_owned()));
    assert_eq!(j.label, "version 1.20.4 json");
    assert!(version_json_job(&manifest, ".minecraft", "1.8.9").is_none());
}

#[test]
fn core_jobs_come_in_order_and_assets_follow_their_index() {
    let mut v = version("1.20.4");
    v.downloads = Some(VersionDownloads {
        client: Some(DownloadInfo {
            id: None,
            sha1: Some("c1".to_owned()),
            size: Some(10),
            url: Some("https://example/client.jar".to_owned()),
            path: None,
        }),
        server: None,
    });
    v.asset_index = Some(AssetIndex {
        id: Some("12".to_owned()),
        sha1: None,
        size: None,
        total_size: None,
        url: Some("https://example/12.json".to_owned()),
    });
    v.libraries = vec![LibraryJson {
        name: "com.example:lib:1.0".to_owned(),
        downloads: None,
        url: None,
        natives: None,
        extract: None,
        rules: Vec::new(),
    }];
    let jobs = core_download_jobs(&v, ".minecraft", &linux_context());
    let kinds: Vec<DownloadKind> = jobs.iter().map(|j| j.kind).collect();
    assert_eq!(kinds, vec![DownloadKind::ClientJar, DownloadKind::Library, DownloadKind::AssetIndex]);
    assert_eq!(jobs[0], client_jar_job(&v, ".minecraft").unwrap());
    assert_eq!(jobs[1].destination, ".minecraft/libraries/com/example/lib/1.0/lib-1.0.jar");
    assert_eq!(jobs[1].url, "https://libraries.minecraft.net/com/example/lib/1.0/lib-1.0.jar");
    assert_eq!(jobs[2], asset_index_job(&v, ".minecraft").unwrap());
    assert!(logging_config_job(&v, ".minecraft").is_none());

    let assets = asset_jobs_from_objects(
        &vec![("icons/icon.png".to_owned(), "bdf48ef6b5d0d23bbb02e17d04865216179f510a".to_owned(), Some(3))],
        ".minecraft",
    );
    assert_eq!(assets.len(), 1);
    assert_eq!(
        assets[0].url,
        "https://resources.download.minecraft.net/bd/bdf48ef6b5d0d23bbb02e17d04865216179f510a"
    );
    assert_eq!(assets[0].destination, ".minecraft/assets/objects/bd/bdf48ef6b5d0d23bbb02e17d04865216179f510a");
    assert_eq!(assets[0].label, "asset icons/icon.png");
    assert_eq!(assets[0].expected_size, Some(3));
    assert_eq!(assets[0], asset_job("icons/icon.png", "bdf48ef6b5d0d23bbb02e17d04865216179f510a", Some(3), ".minecraft"));
}

#[test]
fn files_that_passed_their_check_are_skipped_unless_everything_is_fetched_again() {
    let jobs = vec![job("u1", "d1", "one"), job("u2", "d2", "two")];
    let mut config = LauncherConfig::with_platform_defaults(&defaults());
    let kept = pending_jobs(jobs.clone(), &vec![true, false], &config);
    assert_eq!(kept, vec![jobs[1].clone()]);
    config.redownload_all_files = true;
    assert_eq!(pending_jobs(jobs.clone(), &vec![true, false], &config), jobs);
}

#[test]
fn run_result_reports_failures() {
    assert_eq!(run_result(DownloadSummary { succeeded: 3, failed: 0 }), Ok(()));
    assert_eq!(run_result(DownloadSummary { succeeded: 1, failed: 2 }), Err("2 downloads failed".to_owned()));
}

#[test]
fn downloads_are_checked_for_size_then_hash_ignoring_case() {
    let j = job("u", "d", "l").with_integrity(Some("A9993E364706816ABA3E25717850C26C9CD0D89D".to_owned()), Some(3));
    assert_eq!(check_download(&j, 3, "a9993e364706816aba3e25717850c26c9cd0d89d"), Ok(()));
    assert_eq!(
        check_download(&j, 4, "a9993e364706816aba3e25717850c26c9cd0d89d"),
        Err(DownloadError::SizeMismatch { expected: 3, actual: 4 })
    );
    assert_eq!(
        check_download(&j, 3, "00"),
        Err(DownloadError::Sha1Mismatch {
            expected: "A9993E364706816ABA3E25717850C26C9CD0D89D".to_owned(),
            actual: "00".to_owned()
        })
    );
    assert!(existing_file_is_valid(&j, 3, Some("a9993e364706816aba3e25717850c26c9cd0d89d")));
    assert!(!existing_file_is_valid(&j, 3, None));
    assert!(!existing_file_is_valid(&j, 2, Some("a9993e364706816aba3e25717850c26c9cd0d89d")));
    assert!(existing_file_is_valid(&job("u", "d", "l"), 99, None));
}

#[test]
fn retry_policy_and_messages() {
    let net = DownloadError::Network { url: "https://x".to_owned(), message: "reset".to_owned() };
    assert!(should_retry(1, &net));
    assert!(!should_retry(5, &net));
    let not_found = DownloadError::HttpStatus { url: "https://x".to_owned(), status: 404 };
    assert!(!should_retry(1, &not_found));
    assert!(should_retry(1, &DownloadError::HttpStatus { url: "https://x".to_owned(), status: 503 }));
    assert!(!should_retry(1, &DownloadError::Io { kind: IoErrorKind::Other, message: "disk".to_owned() }));
    assert!(should_retry(2, &DownloadError::Io { kind: IoErrorKind::TimedOut, message: "slow".to_owned() }));
    assert_eq!(retry_backoff_ms(3), 1500);
    assert_eq!(not_found.message(), "HTTP request to https://x failed with status 404");
    assert_eq!(net.message(), "network request to https://x failed: reset");
    assert_eq!(
        DownloadError::SizeMismatch { expected: 3, actual: 4 }.message(),
        "size mismatch: expected 3, got 4"
    );
}

#[test]
fn latest_alias_concurrency_and_scratch_path() {
    let manifest = vec![manifest_entry("1.21", "release"), manifest_entry("1.20.4", "release")];
    assert_eq!(resolve_selected_version(&manifest, "latest"), "1.21");
    assert_eq!(resolve_selected_version(&manifest, "1.20.4"), "1.20.4");
    assert_eq!(resolve_selected_version(&[], "latest"), "latest");
    let mut config = LauncherConfig::with_platform_defaults(&defaults());
    config.download_threads = 0;
    assert_eq!(download_concurrency(&config), 1);
    config.download_threads = 8;
    assert_eq!(download_concurrency(&config), 8);
    config.async_download = false;
    assert_eq!(download_concurrency(&config), 1);
    assert_eq!(temporary_download_path("a/b.jar"), "a/b.jar.download");
}

#[test]
fn sha1_matches_the_long_standard_vector() {
    let million = vec![b'a'; 1_000_000];
    assert_eq!(sha1_hex(&million), "34aa973cd4c4daa4f61eeb2bdbad27316534016f");
}

#[test]
fn asset_index_file_follows_the_index_id() {
    let mut v = version("1.20.4");
    assert_eq!(asset_index_file(&v, ".minecraft"), None);
    v.asset_index = Some(AssetIndex { id: Some("12".to_owned()), sha1: None, size: None, total_size: None, url: None });
    assert_eq!(asset_index_file(&v, ".minecraft"), Some(".minecraft/assets/indexes/12.json".to_owned()));
}

#[test]
fn sha1_state_clone_split_update_matches_single_update() {
    let mut start = Sha1::new();
    start.update(b"prefix-");
    let mut split = start.clone();
    split.update(b"ab");
    split.update(b"c");
    let mut whole = start.clone();
    whole.update(b"abc");
    let split_hex = split.finalize_hex();
    assert_eq!(split_hex, whole.finalize_hex());
    assert_eq!(split_hex, sha1_hex(b"prefix-abc"));
    assert_eq!(start.finalize_hex(), sha1_hex(b"prefix-"));
    assert_eq!(sha1_hex(b"abc"), "a9993e364706816aba3e25717850c26c9cd0d89d");
}
