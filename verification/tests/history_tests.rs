use crow::history::{clean_history_command, last_history_command, Shell};

#[test]
fn detects_bash() {
    assert_eq!(Shell::from_path("/bin/bash".to_string()), Some(Shell::Bash));
}

#[test]
fn detects_zsh() {
    assert_eq!(Shell::from_path("/bin/zsh".to_string()), Some(Shell::Zsh));
}

#[test]
fn does_not_detect_others() {
    assert_eq!(Shell::from_path("/bin/fish".to_string()), None);
}

#[test]
fn returns_correct_command_from_history() {
    // History lines end with the command now running, so the line before the
    // last one is the one the user means.
    let lines = vec![
        "ls -la".to_string(),
        "echo \"Hi from test history\"".to_string(),
        "crow add:last".to_string(),
    ];

    let result = last_history_command(&lines);

    assert_eq!(result, "echo \"Hi from test history\"");
}

#[test]
fn correctly_cleans_up_zsh_commands() {
    let lines = vec![
        ": 1556389893:0;ls -la".to_string(),
        ": 1556389894:0;echo 'Hi from test zsh_history'".to_string(),
        ": 1556389895:0;crow add:last".to_string(),
    ];

    let result = last_history_command(&lines);

    assert_eq!(result, "echo 'Hi from test zsh_history'");
}

#[test]
fn bash_line_stays_untouched() {
    assert_eq!(clean_history_command("echo hello"), "echo hello");
    assert_eq!(clean_history_command(""), "");
}

#[test]
fn only_the_first_stamp_is_removed() {
    assert_eq!(
        clean_history_command(": 12:3;echo ': 4:5;'"),
        "echo ': 4:5;'"
    );
}

#[test]
fn stamp_without_seconds_digits_still_matches() {
    assert_eq!(clean_history_command(": :0;pwd"), "pwd");
}

#[test]
fn history_file_names_follow_the_shell() {
    assert_eq!(Shell::Zsh.history_file_name(), ".zsh_history");
    assert_eq!(Shell::Bash.history_file_name(), ".bash_history");
}
