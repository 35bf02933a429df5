use vortex_rust_launcher::cli::{apply_setting, parse_bool, parse_command, resolve_latest_alias, unknown_command_message, CliCommand, SettingError};
use vortex_rust_launcher::config::{LauncherConfig, PlatformDefaults};
use vortex_rust_launcher::download::ManifestVersion;
use vortex_rust_launcher::minecraft::{LaunchContext, LaunchProfile, LibraryDownloads, LibraryJson, DownloadInfo, ExtractRules, MinecraftVersionJson};
use vortex_rust_launcher::natives::{native_archive_paths_defined, native_entry_destination, safe_zip_entry_path};
use vortex_rust_launcher::platform::{java_executable_for_major, java_major_of_output, OperatingSystem, RuntimeEnvironment};

fn defaults() -> PlatformDefaults {
    PlatformDefaults {
        working_directory: ".minecraft".to_owned(),
        default_java_executable_path: "java".to_owned(),
        default_ram_mb: 2048,
        default_modern_jvm_arguments: "-XX:+UseG1GC".to_owned(),
        default_download_missing_libraries: true,
        default_download_threads: 4,
        default_async_download: true,
    }
}

fn args(list: &[&str]) -> Vec<String> {
    list.iter().map(|a| a.to_string()).collect()
}

#[test]
fn minecraft_directory_follows_platform_conventions() {
    let linux = RuntimeEnvironment { os: OperatingSystem::Linux, home_dir: Some("/home/me".to_owned()) };
    assert_eq!(linux.minecraft_directory(None), Some("/home/me/.minecraft".to_owned()));
    let mac = RuntimeEnvironment { os: OperatingSystem::MacOs, home_dir: Some("/Users/me".to_owned()) };
    assert_eq!(mac.minecraft_directory(None), Some("/Users/me/Library/Application Support/minecraft".to_owned()));
    let windows = RuntimeEnvironment { os: OperatingSystem::Windows, home_dir: Some("/c/me".to_owned()) };
    assert_eq!(windows.minecraft_directory(None), Some("/c/me/AppData/Roaming/.minecraft".to_owned()));
    assert_eq!(windows.minecraft_directory(Some("/appdata".to_owned())), Some("/appdata/.minecraft".to_owned()));
    let homeless = RuntimeEnvironment { os: OperatingSystem::Linux, home_dir: None };
    assert_eq!(homeless.minecraft_directory(None), None);
}

#[test]
fn window_sizes_and_java_names_per_platform() {
    let windows = RuntimeEnvironment { os: OperatingSystem::Windows, home_dir: None };
    assert_eq!(windows.ui_layout().main_window, (350, 255));
    assert_eq!(windows.java_executable(), "java.exe");
    let other = RuntimeEnvironment { os: OperatingSystem::Other, home_dir: None };
    assert_eq!(other.ui_layout().downloader_window, (300, 160));
    assert_eq!(other.java_home_candidate("/opt/jdk"), "/opt/jdk/bin/java");
    assert_eq!(other.path_candidates("/usr/bin::/bin", ':'), vec!["/usr/bin/java", "java", "/bin/java"]);
    assert_eq!(OperatingSystem::from_name("macos"), OperatingSystem::MacOs);
    assert_eq!(OperatingSystem::from_name("haiku"), OperatingSystem::Other);
}

#[test]
fn extracts_native_zip_respecting_exclusions_and_safe_paths() {
    let exclude = vec!["META-INF/".to_owned()];
    let natives = "/games/versions/1.0/natives";
    assert_eq!(native_entry_destination("libnative.so", false, natives, &exclude), Some(format!("{natives}/libnative.so")));
    assert_eq!(native_entry_destination("META-INF/MANIFEST.MF", false, natives, &exclude), None);
    assert_eq!(native_entry_destination("nested/helper.so", false, natives, &exclude), Some(format!("{natives}/nested/helper.so")));
    assert_eq!(native_entry_destination("../escape.so", false, natives, &exclude), None);
    assert_eq!(native_entry_destination("nested/", true, natives, &exclude), None);
    assert_eq!(native_entry_destination("win\\dir\\a.dll", false, natives, &exclude), Some(format!("{natives}/win/dir/a.dll")));
}

#[test]
fn zip_entry_names_are_made_safe() {
    assert_eq!(safe_zip_entry_path("a//b/./c/"), Some("a/b/c".to_owned()));
    assert_eq!(safe_zip_entry_path("/etc/passwd"), None);
    assert_eq!(safe_zip_entry_path("./a"), None);
    assert_eq!(safe_zip_entry_path("a/../b"), None);
    assert_eq!(safe_zip_entry_path(""), None);
    assert_eq!(safe_zip_entry_path(".hidden"), Some(".hidden".to_owned()));
}

#[test]
fn natives_archives_are_found_under_libraries() {
    let lib = LibraryJson {
        name: "org.example:native:1.0".to_owned(),
        downloads: Some(LibraryDownloads {
            artifact: None,
            classifiers: Some(vec![(
                "natives-linux".to_owned(),
                DownloadInfo { id: None, sha1: None, size: None, url: Some("https://example/native.jar".to_owned()), path: None },
            )]),
        }),
        url: None,
        natives: Some(vec![("linux".to_owned(), "natives-linux".to_owned())]),
        extract: Some(ExtractRules { exclude: vec!["META-INF/".to_owned()] }),
        rules: Vec::new(),
    };
    let version = MinecraftVersionJson {
        id: Some("1.0".to_owned()),
        java_version: None,
        main_class: None,
        assets: None,
        asset_index: None,
        downloads: None,
        libraries: vec![lib],
        arguments: None,
        minecraft_arguments: None,
        inherits_from: None,
        jar: None,
        logging: None,
    };
    let context = LaunchContext::for_host("linux", "x86_64");
    let config = LauncherConfig::with_platform_defaults(&defaults());
    let mut profile = LaunchProfile::from_config(&config);
    profile.game_directory = "/games".to_owned();
    assert!(native_archive_paths_defined(&version, &context));
    let archives = version.native_archives(&profile, &context);
    assert_eq!(archives.len(), 1);
    assert_eq!(archives[0].path, "/games/libraries/org/example/native/1.0/native-1.0-natives-linux.jar");
    assert_eq!(archives[0].exclude, vec!["META-INF/".to_owned()]);
    assert_eq!(version.natives_directory(&profile), "/games/versions/1.0/natives");
}

#[test]
fn set_command_changes_one_setting() {
    let mut config = LauncherConfig::with_platform_defaults(&defaults());
    assert_eq!(apply_setting(&mut config, &args(&["ram", "4096"])), Ok(()));
    assert_eq!(config.memory_mb, Some(4096));
    assert_eq!(apply_setting(&mut config, &args(&["java", "/opt/java"])), Ok(()));
    assert_eq!(config.java_path, Some("/opt/java".to_owned()));
    assert!(config.use_custom_java);
    assert_eq!(apply_setting(&mut config, &args(&["snapshots", "TRUE"])), Ok(()));
    assert!(!config.show_all_versions);
    assert_eq!(apply_setting(&mut config, &args(&["threads", "x"])), Ok(()));
    assert_eq!(config.download_threads, 4);
    let before = config.clone();
    assert_eq!(
        apply_setting(&mut config, &args(&["colour", "red"])),
        Err(SettingError::UnknownSetting { key: "colour".to_owned() })
    );
    assert_eq!(apply_setting(&mut config, &args(&["ram"])), Err(SettingError::Usage));
    assert_eq!(config, before);
    assert_eq!(SettingError::UnknownSetting { key: "colour".to_owned() }.message(), "unknown setting 'colour'");
    assert_eq!(SettingError::Usage.message(), "usage: set <key> <value>");
    assert!(parse_bool("yes") && parse_bool("1") && !parse_bool("Yes"));
}

#[test]
fn command_line_is_read() {
    let mut config = LauncherConfig::with_platform_defaults(&defaults());
    assert_eq!(parse_command(&args(&[]), &config), CliCommand::Gui);
    assert_eq!(parse_command(&args(&["download"]), &config), CliCommand::Download { version: "latest".to_owned() });
    config.selected_version = Some("1.8.9".to_owned());
    assert_eq!(parse_command(&args(&["download"]), &config), CliCommand::Download { version: "1.8.9".to_owned() });
    assert_eq!(parse_command(&args(&["download", "1.21"]), &config), CliCommand::Download { version: "1.21".to_owned() });
    assert_eq!(parse_command(&args(&["set", "ram", "1"]), &config), CliCommand::SetSetting { args: args(&["ram", "1"]) });
    assert_eq!(parse_command(&args(&["-h"]), &config), CliCommand::Help);
    assert_eq!(parse_command(&args(&["fly"]), &config), CliCommand::Unknown { command: "fly".to_owned() });
    assert_eq!(unknown_command_message("fly"), "unknown command 'fly'. Run with 'help' for usage.");
    let manifest = vec![ManifestVersion { id: "1.21".to_owned(), kind: "release".to_owned(), url: String::new(), sha1: None }];
    assert_eq!(resolve_latest_alias("latest", &manifest), Ok("1.21".to_owned()));
    assert_eq!(resolve_latest_alias("1.8.9", &Vec::new()), Ok("1.8.9".to_owned()));
    assert_eq!(resolve_latest_alias("latest", &Vec::new()), Err("no versions in manifest".to_owned()));
}

#[test]
fn java_version_output_gives_the_major_version() {
    assert_eq!(java_major_of_output("openjdk version \"21.0.2\" 2024-01-16\nOpenJDK Runtime"), Some(21));
    assert_eq!(java_major_of_output("java version \"1.8.0_381\"\nJava(TM) SE"), Some(8));
    assert_eq!(java_major_of_output("openjdk version \"17-ea\""), Some(17));
    assert_eq!(java_major_of_output("no version here"), None);
    assert_eq!(java_major_of_output("version \"abc\""), None);
}

#[test]
fn java_of_the_required_major_is_preferred() {
    let found = vec![
        ("/jdk8/bin/java".to_owned(), Some(8)),
        ("/jdk21/bin/java".to_owned(), Some(21)),
        ("/jdk17/bin/java".to_owned(), Some(17)),
        ("/odd/bin/java".to_owned(), None),
    ];
    assert_eq!(java_executable_for_major(&found, 17), Some("/jdk17/bin/java".to_owned()));
    assert_eq!(java_executable_for_major(&found, 16), Some("/jdk21/bin/java".to_owned()));
    assert_eq!(java_executable_for_major(&found, 25), Some("/jdk8/bin/java".to_owned()));
    assert_eq!(java_executable_for_major(&Vec::new(), 8), None);
}
