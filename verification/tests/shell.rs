//! Commands for a remote shell.

use purgery_server::shell::{build_remote_command, shell_escape};

#[test]
fn test_build_remote_command() {
    let args = vec!["--input".to_string(), "/path/file.mp4".to_string()];
    let cmd = build_remote_command("my-compress-video", &args);
    assert_eq!(cmd, "my-compress-video '--input' '/path/file.mp4'");
}

#[test]
fn test_build_remote_command_with_spaces() {
    let args = vec![
        "--input".to_string(),
        "/path/with spaces/file.mp4".to_string(),
    ];
    let cmd = build_remote_command("rsync", &args);
    assert_eq!(cmd, "rsync '--input' '/path/with spaces/file.mp4'");
}

#[test]
fn quotes_inside_a_word_are_escaped() {
    assert_eq!(shell_escape("it's"), "'it'\\''s'");
    assert_eq!(shell_escape(""), "''");
    assert_eq!(shell_escape("$HOME; rm"), "'$HOME; rm'");
}

#[test]
fn a_command_without_arguments_is_the_program() {
    assert_eq!(build_remote_command("true", &[]), "true");
}
