use vortex_rust_launcher::launch::{command_to_string, display_command, first_non_empty_line, LaunchOptions};
use vortex_rust_launcher::minecraft::LaunchCommand;

fn sample_command() -> LaunchCommand {
    LaunchCommand {
        executable: "/opt/java bin/java".to_owned(),
        args: vec![
            "-Xmx2048M".to_owned(),
            "-Dkey=value with spaces".to_owned(),
            "net.minecraft.client.Main".to_owned(),
        ],
        working_directory: ".".to_owned(),
        launch_string: None,
    }
}

#[test]
fn display_command_quotes_without_changing_process_args() {
    let command = sample_command();

    assert_eq!(
        display_command(&command),
        "\"/opt/java bin/java\" -Xmx2048M \"-Dkey=value with spaces\" net.minecraft.client.Main"
    );
    assert_eq!(command.args[1], "-Dkey=value with spaces");
}

#[test]
fn display_command_uses_saved_launch_string_when_available() {
    let mut command = sample_command();
    command.launch_string = Some("saved java invocation".to_owned());

    assert_eq!(display_command(&command), "saved java invocation");
}

#[test]
fn keep_launcher_open_controls_close_flag() {
    let close_after_spawn = LaunchOptions { keep_launcher_open: false, save_launch_string: false }
        .should_close_launcher();
    let remain_open = LaunchOptions { keep_launcher_open: true, save_launch_string: false }
        .should_close_launcher();

    assert!(close_after_spawn);
    assert!(!remain_open);
}

#[test]
fn quotes_inside_arguments_are_escaped_for_display() {
    let shown = command_to_string("java", &vec!["-Dname=\"x\"".to_owned(), "".to_owned()]);
    assert_eq!(shown, "java \"-Dname=\\\"x\\\"\" ");
}

#[test]
fn saved_command_only_when_switched_on() {
    let command = sample_command();
    let off = LaunchOptions { keep_launcher_open: false, save_launch_string: false };
    let on = LaunchOptions { keep_launcher_open: false, save_launch_string: true };
    assert_eq!(off.saved_command(&command), None);
    assert_eq!(on.saved_command(&command), Some(display_command(&command)));
}

#[test]
fn java_version_line_is_the_first_non_blank_one() {
    assert_eq!(
        first_non_empty_line("\n   \n  openjdk version \"21.0.2\" \nmore"),
        Some("openjdk version \"21.0.2\"".to_owned())
    );
    assert_eq!(first_non_empty_line(" \n\t\n"), None);
}
