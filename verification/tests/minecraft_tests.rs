use vortex_rust_launcher::config::{LauncherConfig, PlatformDefaults};
use vortex_rust_launcher::command::offline_uuid;
use vortex_rust_launcher::minecraft::{logging_config_path, version_json_path, VersionMetadata};
use vortex_rust_launcher::minecraft::{
    infer_java_major_from_minecraft_version, rules_apply_with_context, ArgumentValue, ArgumentValueList,
    ArgumentsJson, AssetIndex, DownloadInfo, JavaVersion, LaunchContext, LaunchProfile, LibraryDownloads,
    LibraryJson, LoggingClient, LoggingJson, MinecraftVersionJson, OsRule, Rule, RuleAction,
};

fn defaults() -> PlatformDefaults {
    PlatformDefaults {
        working_directory: ".minecraft".to_owned(),
        default_java_executable_path: "java".to_owned(),
        default_ram_mb: 2048,
        default_modern_jvm_arguments: "-XX:+UseG1GC".to_owned(),
        default_download_missing_libraries: true,
        default_download_threads: 4,
        default_async_download: true,
    }
}

fn linux_context() -> LaunchContext {
    LaunchContext {
        os: "linux".to_owned(),
        arch: "x86_64".to_owned(),
        demo_mode: false,
        resolution: None,
        quick_play_support: false,
        quick_play_singleplayer: false,
        quick_play_multiplayer: false,
        quick_play_realms: false,
        custom_features: Vec::new(),
    }
}

fn profile() -> LaunchProfile {
    LaunchProfile {
        username: "Player".to_owned(),
        version_id: "1.20.4".to_owned(),
        game_directory: ".minecraft".to_owned(),
        java_path: None,
        memory_mb: 2048,
        jvm_args: Vec::new(),
        game_args: Vec::new(),
    }
}

fn version(id: &str) -> MinecraftVersionJson {
    MinecraftVersionJson {
        id: Some(id.to_owned()),
        java_version: None,
        main_class: None,
        assets: None,
        asset_index: None,
        downloads: None,
        libraries: Vec::new(),
        arguments: None,
        minecraft_arguments: None,
        inherits_from: None,
        jar: None,
        logging: None,
    }
}

fn allow() -> Rule {
    Rule { action: RuleAction::Allow, os: None, features: Vec::new() }
}

fn allow_os(name: &str) -> Rule {
    Rule {
        action: RuleAction::Allow,
        os: Some(OsRule { name: Some(name.to_owned()), arch: None, version: None }),
        features: Vec::new(),
    }
}

fn allow_feature(name: &str) -> Rule {
    Rule { action: RuleAction::Allow, os: None, features: vec![(name.to_owned(), true)] }
}

fn info(path: Option<&str>, url: &str) -> DownloadInfo {
    DownloadInfo {
        id: None,
        sha1: None,
        size: None,
        url: Some(url.to_owned()),
        path: path.map(|p| p.to_owned()),
    }
}

fn jinput_natives(classifier: &str) -> LibraryJson {
    LibraryJson {
        name: "net.java.jinput:jinput-platform:2.0.5".to_owned(),
        downloads: Some(LibraryDownloads {
            artifact: None,
            classifiers: Some(vec![(
                classifier.to_owned(),
                info(
                    Some(&format!(
                        "net/java/jinput/jinput-platform/2.0.5/jinput-platform-2.0.5-{classifier}.jar"
                    )),
                    "https://example/native.jar",
                ),
            )]),
        }),
        url: None,
        natives: Some(vec![
            ("linux".to_owned(), "natives-linux".to_owned()),
            ("osx".to_owned(), "natives-osx".to_owned()),
            ("windows".to_owned(), "natives-windows".to_owned()),
        ]),
        extract: None,
        rules: Vec::new(),
    }
}

#[test]
fn modern_version_json_expands_representative_argument_rules() {
    let mut v = version("1.20.4");
    v.main_class = Some("net.minecraft.client.main.Main".to_owned());
    v.asset_index = Some(AssetIndex {
        id: Some("12".to_owned()),
        sha1: None,
        size: None,
        total_size: None,
        url: Some("https://example/assets.json".to_owned()),
    });
    v.arguments = Some(ArgumentsJson {
        jvm: vec![
            ArgumentValue::String("-Djava.library.path=${natives_directory}".to_owned()),
            ArgumentValue::Ruled {
                rules: vec![allow_os("linux")],
                value: ArgumentValueList::One("-XstartOnLinux".to_owned()),
            },
            ArgumentValue::Ruled {
                rules: vec![allow_feature("has_custom_resolution")],
                value: ArgumentValueList::Many(vec!["--width".to_owned(), "${resolution_width}".to_owned()]),
            },
        ],
        game: vec![
            ArgumentValue::String("--username".to_owned()),
            ArgumentValue::String("${auth_player_name}".to_owned()),
            ArgumentValue::Ruled {
                rules: vec![allow_feature("is_demo_user")],
                value: ArgumentValueList::One("--demo".to_owned()),
            },
        ],
    });

    let command = v.build_launch_command_with_context(&profile(), false, &linux_context(), None, false);

    assert!(command.args.contains(&"-XstartOnLinux".to_owned()));
    assert!(command.args.contains(&"--username".to_owned()));
    assert!(!command.args.contains(&"--demo".to_owned()));
    assert!(!command.args.contains(&"--width".to_owned()));
}

#[test]
fn legacy_1_8_9_arguments_do_not_keep_unresolved_placeholders() {
    let mut v = version("1.8.9");
    v.java_version = Some(JavaVersion { component: Some("jre-legacy".to_owned()), major_version: Some(8) });
    v.assets = Some("1.8".to_owned());
    v.asset_index = Some(AssetIndex {
        id: Some("1.8".to_owned()),
        sha1: None,
        size: None,
        total_size: None,
        url: Some("https://example/assets.json".to_owned()),
    });
    v.main_class = Some("net.minecraft.client.main.Main".to_owned());
    v.minecraft_arguments = Some("--username ${auth_player_name} --version ${version_name} --gameDir ${game_directory} --assetsDir ${assets_root} --assetIndex ${assets_index_name} --uuid ${auth_uuid} --accessToken ${auth_access_token} --userProperties ${user_properties} --userType ${user_type}".to_owned());
    v.logging = Some(LoggingJson {
        client: Some(LoggingClient {
            argument: Some("-Dlog4j.configurationFile=${path}".to_owned()),
            file: Some(DownloadInfo {
                id: Some("client-1.7.xml".to_owned()),
                sha1: None,
                size: None,
                url: Some("https://launcher.mojang.com/v1/objects/hash/client-1.7.xml".to_owned()),
                path: None,
            }),
            kind: None,
        }),
    });

    let command = v.build_launch_command_with_context(&profile(), false, &linux_context(), None, false);

    assert!(command.args.iter().all(|arg| !arg.contains("${")), "{:?}", command.args);
    assert!(command.args.windows(2).any(|pair| pair == ["--userProperties", "{}"]));
    assert!(command
        .args
        .contains(&format!("-Dlog4j.configurationFile={}", ".minecraft/assets/log_configs/client-1.7.xml")));
}

#[test]
fn java_requirement_uses_metadata_or_version_fallback() {
    let mut modern = version("1.20.6");
    modern.java_version =
        Some(JavaVersion { component: Some("java-runtime-delta".to_owned()), major_version: Some(21) });
    assert_eq!(modern.required_java_major(), 21);

    let legacy = version("1.12.2");
    assert_eq!(legacy.required_java_major(), 8);

    assert_eq!(infer_java_major_from_minecraft_version("1.17.1"), Some(17));
    assert_eq!(infer_java_major_from_minecraft_version("1.20.4"), Some(17));
    assert_eq!(infer_java_major_from_minecraft_version("1.20.5"), Some(21));
    assert_eq!(infer_java_major_from_minecraft_version("26.2"), Some(25));
}

#[test]
fn custom_java_is_only_used_when_enabled() {
    let mut config = LauncherConfig::with_platform_defaults(&defaults());
    config.java_path = Some("C:/Java/bin/javaw.exe".to_owned());
    config.use_custom_java = false;
    assert!(LaunchProfile::from_config(&config).java_path.is_none());

    config.use_custom_java = true;
    assert_eq!(LaunchProfile::from_config(&config).java_path, Some("C:/Java/bin/javaw.exe".to_owned()));
}

#[test]
fn rule_denial_overrides_previous_allow() {
    let rules = vec![
        allow(),
        Rule {
            action: RuleAction::Disallow,
            os: Some(OsRule { name: Some("linux".to_owned()), arch: None, version: None }),
            features: Vec::new(),
        },
    ];

    assert!(!rules_apply_with_context(&rules, &linux_context()));
}

#[test]
fn os_specific_allow_matches_launch_context() {
    let rules = vec![allow_os("osx")];
    let mut context = linux_context();
    assert!(!rules_apply_with_context(&rules, &context));

    context.os = "osx".to_owned();
    assert!(rules_apply_with_context(&rules, &context));
}

#[test]
fn feature_specific_allow_uses_launch_context() {
    let rules = vec![allow_feature("is_demo_user")];
    let mut context = linux_context();
    assert!(!rules_apply_with_context(&rules, &context));

    context.demo_mode = true;
    assert!(rules_apply_with_context(&rules, &context));
}

#[test]
fn classifier_only_libraries_are_not_added_to_classpath() {
    let mut v = version("1.0");
    v.libraries = vec![jinput_natives("natives-linux")];

    assert!(v.effective_libraries_with_context(".minecraft", &linux_context()).is_empty());
}

#[test]
fn no_rules_allow_and_empty_rule_list_allows() {
    assert!(rules_apply_with_context(&Vec::new(), &linux_context()));
    let rules = vec![Rule { action: RuleAction::Disallow, os: None, features: Vec::new() }];
    assert!(!rules_apply_with_context(&rules, &linux_context()));
}

#[test]
fn child_version_inherits_and_overrides_parent() {
    let mut parent = version("1.20.4");
    parent.main_class = Some("net.minecraft.client.main.Main".to_owned());
    parent.assets = Some("12".to_owned());
    let mut child = version("fabric-1.20.4");
    child.inherits_from = Some("1.20.4".to_owned());
    child.main_class = Some("net.fabricmc.loader.Main".to_owned());
    let merged = parent.inherit(child);
    assert_eq!(merged.id, Some("fabric-1.20.4".to_owned()));
    assert_eq!(merged.main_class, Some("net.fabricmc.loader.Main".to_owned()));
    assert_eq!(merged.assets, Some("12".to_owned()));
    assert_eq!(merged.jar, Some("1.20.4".to_owned()));
}

#[test]
fn launch_context_names_the_host_system_as_mojang_does() {
    assert_eq!(LaunchContext::for_host("macos", "aarch64").os, "osx");
    assert_eq!(LaunchContext::for_host("linux", "x86_64").os, "linux");
    assert_eq!(LaunchContext::for_host("freebsd", "x86_64").os, "unknown");
}

#[test]
fn launch_command_uses_profile_memory_and_offline_identity() {
    let mut v = version("1.20.4");
    v.main_class = Some("net.minecraft.client.main.Main".to_owned());
    let command = v.build_launch_command_with_context(&profile(), true, &linux_context(), Some("/usr/bin/java".to_owned()), false);
    assert_eq!(command.executable, "/usr/bin/java");
    assert!(command.args.contains(&"-Xmx2048M".to_owned()));
    assert!(command.args.contains(&"net.minecraft.client.main.Main".to_owned()));
    assert!(command.launch_string.is_some());
}

#[test]
fn offline_identity_is_a_stable_hash_of_the_name() {
    assert_eq!(offline_uuid("Player"), "507334165767b0bbf1e400cba278c180");
    assert_eq!(offline_uuid("Player").len(), 32);
}

#[test]
fn plain_launch_arguments_and_metadata() {
    let mut p = profile();
    p.jvm_args = vec!["-Xss1M".to_owned()];
    p.game_args = vec!["--demo".to_owned()];
    let mut metadata = VersionMetadata::minimal("1.20.4");
    assert_eq!(metadata.id, "1.20.4");
    assert!(metadata.libraries.is_empty() && metadata.main_class.is_none() && metadata.assets_index.is_none());
    metadata.main_class = Some("net.minecraft.client.main.Main".to_owned());
    assert_eq!(
        p.launch_arguments(&metadata),
        vec![
            "-Xmx2048M", "-Xss1M", "net.minecraft.client.main.Main", "--username", "Player", "--version", "1.20.4",
            "--gameDir", ".minecraft", "--demo",
        ]
    );
    assert_eq!(version_json_path(".minecraft", "1.8.9"), ".minecraft/versions/1.8.9/1.8.9.json");
    let file = DownloadInfo {
        id: None,
        sha1: None,
        size: None,
        url: Some("https://example/objects/abc/client-1.12.xml".to_owned()),
        path: None,
    };
    assert_eq!(logging_config_path(".minecraft", &file), ".minecraft/assets/log_configs/client-1.12.xml");
    let nothing = DownloadInfo { id: None, sha1: None, size: None, url: None, path: None };
    assert_eq!(logging_config_path("g", &nothing), "g/assets/log_configs/client-logging.xml");

    let mut v = version("1.20.4");
    v.assets = Some("legacy".to_owned());
    v.libraries = vec![LibraryJson {
        name: "com.example:lib:1.0".to_owned(),
        downloads: None,
        url: Some("https://maven.example".to_owned()),
        natives: None,
        extract: None,
        rules: Vec::new(),
    }];
    let m = v.to_metadata(".minecraft", &linux_context());
    assert_eq!(m.id, "1.20.4");
    assert_eq!(m.assets_index, Some("legacy".to_owned()));
    assert_eq!(m.libraries.len(), 1);
    assert_eq!(m.libraries[0].path, ".minecraft/libraries/com/example/lib/1.0/lib-1.0.jar");
    assert_eq!(m.libraries[0].url, Some("https://maven.example".to_owned()));
}

fn plain_library(name: &str, path: &str) -> LibraryJson {
    LibraryJson {
        name: name.to_owned(),
        downloads: Some(LibraryDownloads { artifact: Some(info(Some(path), "https://example/lib.jar")), classifiers: None }),
        url: None,
        natives: None,
        extract: None,
        rules: Vec::new(),
    }
}

#[test]
fn classpath_separator_follows_the_host_not_the_rules_os() {
    let mut v = version("1.20.4");
    v.libraries = vec![plain_library("org.example:lib:1.0", "org/example/lib/1.0/lib-1.0.jar")];
    let on_windows = v.build_launch_command_with_context(&profile(), false, &linux_context(), None, true);
    let cp = on_windows.args.iter().position(|a| a == "-cp").unwrap();
    assert_eq!(
        on_windows.args[cp + 1],
        ".minecraft/libraries/org/example/lib/1.0/lib-1.0.jar;.minecraft/versions/1.20.4/1.20.4.jar"
    );
    let on_linux = v.build_launch_command_with_context(&profile(), false, &linux_context(), None, false);
    assert_eq!(
        on_linux.args[cp + 1],
        ".minecraft/libraries/org/example/lib/1.0/lib-1.0.jar:.minecraft/versions/1.20.4/1.20.4.jar"
    );
    let mut modern = version("1.20.4");
    modern.arguments = Some(ArgumentsJson {
        game: Vec::new(),
        jvm: vec![ArgumentValue::String("sep=${classpath_separator}".to_owned())],
    });
    let mut windows_rules = linux_context();
    windows_rules.os = "windows".to_owned();
    let command = modern.build_launch_command_with_context(&profile(), false, &windows_rules, None, false);
    assert!(command.args.contains(&"sep=:".to_owned()));
}

#[test]
fn feature_entries_are_looked_up_by_name_in_any_order() {
    let rules = vec![Rule {
        action: RuleAction::Allow,
        os: None,
        features: vec![("has_tooltip".to_owned(), true), ("is_wide".to_owned(), false)],
    }];
    let mut context = linux_context();
    context.custom_features = vec![("is_wide".to_owned(), false), ("has_tooltip".to_owned(), true)];
    assert!(rules_apply_with_context(&rules, &context));
    context.custom_features = vec![("has_tooltip".to_owned(), true), ("is_wide".to_owned(), false)];
    assert!(rules_apply_with_context(&rules, &context));
    context.custom_features = vec![("has_tooltip".to_owned(), true), ("is_wide".to_owned(), true)];
    assert!(!rules_apply_with_context(&rules, &context));
}
