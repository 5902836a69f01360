use crow::command_scores::CommandScore;
use crow::crow_commands::CrowCommand;
use crow::fuzzy::fuzzy_search_commands;

fn record(id: &str, command: &str, description: &str) -> CrowCommand {
    CrowCommand {
        id: id.to_string(),
        command: command.to_string(),
        description: description.to_string(),
    }
}

#[test]
fn dont_error_on_empty_command_list() {
    let result = fuzzy_search_commands(vec![], "test");
    let expected: Vec<CommandScore> = vec![];
    assert_eq!(expected, result);
}

#[test]
fn return_full_list_for_empty_pattern() {
    let command = record("test1", "echo 'hi'", "test command");

    let result = fuzzy_search_commands(vec![command.clone()], "");

    let score = CommandScore::new(1, vec![], command.id);
    let expected: Vec<CommandScore> = vec![score];
    assert_eq!(expected, result);
}

#[test]
fn return_matches_by_score() {
    let command1 = record("test1", "echo 'hi'", "test command");
    let command2 = record("test2", "e c something o", "test command");
    let command3 = record("test3", "find", "test command");

    let result =
        fuzzy_search_commands(vec![command1.clone(), command2.clone(), command3], "echo");

    let score_1 = CommandScore::new(91, vec![0, 1, 2, 3], command1.id);
    let score_2 = CommandScore::new(75, vec![0, 2, 9, 14], command2.id);

    let expected: Vec<CommandScore> = vec![score_1, score_2];
    assert_eq!(expected, result);
}

#[test]
fn empty_pattern_keeps_catalog_order_with_score_one() {
    let commands = vec![
        record("a", "ls -la", "list"),
        record("b", "pwd", "where"),
        record("c", "df -h", "disk"),
    ];

    let result = fuzzy_search_commands(commands, "");

    assert_eq!(result.len(), 3);
    let ids: Vec<&str> = result.iter().map(|s| s.command_id().as_str()).collect();
    assert_eq!(ids, vec!["a", "b", "c"]);
    for entry in &result {
        assert_eq!(entry.score(), 1);
        assert!(entry.indices().is_empty());
    }
}

#[test]
fn matching_entry_covers_the_matched_substring() {
    let command = record("1", "echo 'hi'", "test command");

    let result = fuzzy_search_commands(vec![command], "echo");

    assert_eq!(result.len(), 1);
    assert_eq!(result[0].command_id(), "1");
    assert!(result[0].score() > 50);
    // "echo" stands at the head of "echo 'hi': test command".
    assert_eq!(result[0].indices(), &vec![0, 1, 2, 3]);
}

#[test]
fn pattern_without_any_match_gives_empty_result() {
    let commands = vec![
        record("t1", "ls -la", "list files"),
        record("t2", "pwd", "working directory"),
    ];

    let result = fuzzy_search_commands(commands, "zzz");

    assert!(result.is_empty());
}

#[test]
fn results_are_sorted_by_score_descending() {
    let commands = vec![
        record("weak", "e c something o", "test command"),
        record("strong", "echo 'hi'", "test command"),
    ];

    let result = fuzzy_search_commands(commands, "echo");

    assert_eq!(result.len(), 2);
    assert!(result[0].score() >= result[1].score());
    assert_eq!(result[0].command_id(), "strong");
    assert_eq!(result[1].command_id(), "weak");
}

#[test]
fn every_returned_score_beats_the_threshold() {
    let commands = vec![
        record("1", "git status", "current branch state"),
        record("2", "git stash", "put changes aside"),
        record("3", "make clean", "scrub build outputs"),
    ];

    let result = fuzzy_search_commands(commands, "git st");

    assert!(!result.is_empty());
    for entry in &result {
        assert!(entry.score() > 50);
    }
}
