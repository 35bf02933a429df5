use vortex_rust_launcher::config::{join_args, parse_arg_string, LauncherConfig, PlatformDefaults};

fn defaults() -> PlatformDefaults {
    PlatformDefaults {
        working_directory: ".minecraft".to_owned(),
        default_java_executable_path: "java".to_owned(),
        default_ram_mb: 2048,
        default_modern_jvm_arguments: "-XX:+UseG1GC -XX:MaxGCPauseMillis=50".to_owned(),
        default_download_missing_libraries: true,
        default_download_threads: 4,
        default_async_download: true,
    }
}

#[test]
fn parse_arg_string_keeps_quoted_paths_and_properties_with_spaces() {
    let args = parse_arg_string(
        r#"-Djava.library.path="/home/me/Minecraft Libraries" -Dlauncher.name="Vortex Launcher" "#,
    );

    assert_eq!(
        args,
        vec![
            "-Djava.library.path=/home/me/Minecraft Libraries".to_owned(),
            "-Dlauncher.name=Vortex Launcher".to_owned(),
        ]
    );
}

#[test]
fn parse_arg_string_preserves_escaped_quotes_inside_arguments() {
    let args = parse_arg_string(r#"-Dtitle=\"Vortex Launcher\" "quoted value""#);

    assert_eq!(
        args,
        vec!["-Dtitle=\"Vortex Launcher\"".to_owned(), "quoted value".to_owned(),]
    );
}

#[test]
fn join_args_round_trips_custom_jvm_args_without_changing_meaning() {
    let args = vec![
        "-XX:+UnlockExperimentalVMOptions".to_owned(),
        r#"-Djava.library.path=C:\Program Files\Minecraft Libraries"#.to_owned(),
        r#"-Dlauncher.title=Vortex "Rust" Launcher"#.to_owned(),
        "".to_owned(),
    ];

    assert_eq!(parse_arg_string(&join_args(&args)), args);
}

#[test]
fn legacy_config_migrates_space_containing_arguments_safely() {
    let config = LauncherConfig::from_str_with_defaults(
        r#"CustomParams=-Dpath="/opt/Minecraft Libraries" -Dname="Vortex Launcher"
extra_game_args=--quickPlayPath "/home/me/New World"
"#,
        &defaults(),
    )
    .expect("legacy config should parse");

    assert_eq!(
        config.extra_jvm_args,
        vec!["-Dpath=/opt/Minecraft Libraries".to_owned(), "-Dname=Vortex Launcher".to_owned(),]
    );
    assert_eq!(
        config.extra_game_args,
        vec!["--quickPlayPath".to_owned(), "/home/me/New World".to_owned(),]
    );
    assert_eq!(
        LauncherConfig::from_str_with_defaults(&config.to_config_string(), &defaults())
            .expect("saved config should parse")
            .extra_jvm_args,
        config.extra_jvm_args
    );
}

#[test]
fn platform_defaults_fill_a_fresh_config() {
    let config = LauncherConfig::with_platform_defaults(&defaults());
    assert_eq!(config.username, None);
    assert_eq!(config.game_directory, Some(".minecraft".to_owned()));
    assert_eq!(config.java_path, Some("java".to_owned()));
    assert_eq!(config.memory_mb, Some(2048));
    assert_eq!(
        config.extra_jvm_args,
        vec!["-XX:+UseG1GC".to_owned(), "-XX:MaxGCPauseMillis=50".to_owned()]
    );
    assert!(config.extra_game_args.is_empty());
    assert!(config.download_missing_libraries);
    assert_eq!(config.download_threads, 4);
    assert!(config.async_download);
    assert!(!config.use_custom_java && !config.keep_launcher_open && !config.save_launch_string);
}

#[test]
fn legacy_and_current_keys_are_read_with_flags_and_numbers() {
    let text = "# comment\n Name = Steve \nRam=4096\nChosenVer=1.20.4\nDownloadThreads=8\nAsyncDownload=no\nKeepLauncherOpen=YES\nUseCustomJava=on\njava_path=/usr/bin/java\nbroken line\n";
    let config = LauncherConfig::from_str_with_defaults(text, &defaults()).unwrap();
    assert_eq!(config.username, Some("Steve".to_owned()));
    assert_eq!(config.memory_mb, Some(4096));
    assert_eq!(config.selected_version, Some("1.20.4".to_owned()));
    assert_eq!(config.download_threads, 8);
    assert!(!config.async_download);
    assert!(config.keep_launcher_open);
    assert!(config.use_custom_java);
    assert_eq!(config.java_path, Some("/usr/bin/java".to_owned()));
    assert!(config.download_missing_libraries);
}

#[test]
fn unreadable_numbers_fall_back() {
    let config =
        LauncherConfig::from_str_with_defaults("Ram=lots\nDownloadThreads=-1\n", &defaults()).unwrap();
    assert_eq!(config.memory_mb, None);
    assert_eq!(config.download_threads, 4);
}

#[test]
fn written_config_reads_back_the_same_settings() {
    let mut config = LauncherConfig::with_platform_defaults(&defaults());
    config.username = Some("Alex".to_owned());
    config.selected_version = Some("1.8.9".to_owned());
    config.memory_mb = Some(3072);
    config.extra_game_args = vec!["--demo".to_owned(), "a b".to_owned()];
    config.show_all_versions = true;
    config.keep_launcher_open = true;
    config.download_threads = 12;
    let back =
        LauncherConfig::from_str_with_defaults(&config.to_config_string(), &defaults()).unwrap();
    assert_eq!(back, config);
}

#[test]
fn quoted_arguments_with_single_quotes_round_trip() {
    let args = vec!["it's me".to_owned(), r#"-Dtitle=Bob's "Rust" Launcher"#.to_owned(), "plain".to_owned()];
    assert_eq!(parse_arg_string(&join_args(&args)), args);
    let mut config = LauncherConfig::with_platform_defaults(&defaults());
    config.extra_jvm_args = args.clone();
    config.extra_game_args = vec!["--title".to_owned(), "Steve's World".to_owned()];
    let back = LauncherConfig::from_str_with_defaults(&config.to_config_string(), &defaults()).unwrap();
    assert_eq!(back, config);
}

#[test]
fn bare_argument_with_single_quote_does_not_read_back() {
    assert_eq!(parse_arg_string(&join_args(&["it's".to_owned()])), vec!["its".to_owned()]);
}

#[test]
fn unmatched_escaped_quote_is_a_literal_quote() {
    assert_eq!(parse_arg_string("a\\\"b c"), vec!["a\"b".to_owned(), "c".to_owned()]);
    assert_eq!(parse_arg_string("it\\'s me"), vec!["it's".to_owned(), "me".to_owned()]);
    assert_eq!(parse_arg_string("\\\"a b\\\" c"), vec!["\"a b\"".to_owned(), "c".to_owned()]);
}

#[test]
fn text_without_quotes_splits_on_white_space() {
    let text = "  -Xmx1G\t-Da=b \n --demo  ";
    let expected: Vec<String> = text.split_whitespace().map(String::from).collect();
    assert_eq!(parse_arg_string(text), expected);
    assert_eq!(parse_arg_string(text), vec!["-Xmx1G".to_owned(), "-Da=b".to_owned(), "--demo".to_owned()]);
    assert!(parse_arg_string(" \t ").is_empty());
}
