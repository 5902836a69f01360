use crow::command_scores::{CommandScore, CommandScores};
use crow::crow_commands::{Commands, CrowCommand};
use crow::scored_commands::{ScoredCommand, ScoredCommands};

fn record(id: &str, command: &str, description: &str) -> CrowCommand {
    CrowCommand {
        id: id.to_string(),
        command: command.to_string(),
        description: description.to_string(),
    }
}

#[test]
fn command_scores_correctly_normalizes_and_denormalizes() {
    let score = CommandScore::new(1, vec![1, 2], "sc_1".to_string());

    let scores = CommandScores::normalize(&[score.clone()]);

    assert_eq!(scores.get("sc_1").unwrap(), &score);

    let denormalized: Vec<CommandScore> = scores.denormalize();
    assert_eq!(denormalized, vec![score]);
}

#[test]
fn scored_commands_correctly_normalizes_and_denormalizes() {
    let command = ScoredCommand::new(1, vec![1, 2], record("sc_1", "echo hi", ""));

    let scored_commands = ScoredCommands::normalize(&[command.clone()]);

    assert_eq!(scored_commands.get("sc_1").unwrap(), &command);

    let denormalized: Vec<ScoredCommand> = scored_commands.denormalize();
    assert_eq!(denormalized, vec![command]);
}

#[test]
fn match_str_joins_command_and_description() {
    let c = record("1", "echo 'hi'", "test command");
    assert_eq!(c.match_str(), "echo 'hi': test command");
}

#[test]
fn update_command_text_on_absent_id_leaves_catalog_unchanged() {
    let records = [record("1", "ls", "list"), record("2", "pwd", "where")];
    let mut catalog = Commands::normalize(&records);
    let before = catalog.denormalize();

    catalog.update_command("ghost".to_string(), "new");

    assert_eq!(catalog.denormalize(), before);
}

#[test]
fn update_command_text_replaces_only_that_field() {
    let records = [record("1", "ls", "list"), record("2", "pwd", "where")];
    let mut catalog = Commands::normalize(&records);

    catalog.update_command("2".to_string(), "pwd -P");

    let out = catalog.denormalize();
    assert_eq!(out[0], record("1", "ls", "list"));
    assert_eq!(out[1], record("2", "pwd -P", "where"));
}

#[test]
fn update_description_on_absent_id_leaves_catalog_unchanged() {
    let records = [record("1", "ls", "list")];
    let mut catalog = Commands::normalize(&records);
    let before = catalog.denormalize();

    catalog.update_description("ghost".to_string(), "new");

    assert_eq!(catalog.denormalize(), before);
}

#[test]
fn later_duplicate_id_overwrites_earlier_record_in_place() {
    let records = [
        record("1", "ls", "list"),
        record("2", "pwd", "where"),
        record("1", "ls -la", "long list"),
    ];

    let catalog = Commands::normalize(&records);

    let out = catalog.denormalize();
    assert_eq!(out.len(), 2);
    assert_eq!(out[0], record("1", "ls -la", "long list"));
    assert_eq!(out[1], record("2", "pwd", "where"));
}

#[test]
fn store_round_trip_keeps_records_and_order() {
    let records = [
        record("1", "ls", "list"),
        record("2", "pwd", "where"),
        record("3", "df -h", "disk"),
    ];
    let catalog = Commands::normalize(&records);

    let saved = catalog.denormalize();
    let reloaded = Commands::normalize(&saved);

    assert_eq!(reloaded, catalog);
    assert_eq!(reloaded.denormalize(), saved);
}

#[test]
fn get_finds_records_by_id_only() {
    let records = [record("1", "same", "same"), record("2", "same", "same")];
    let catalog = Commands::normalize(&records);

    assert_eq!(catalog.get("1").unwrap().id, "1");
    assert_eq!(catalog.get("2").unwrap().id, "2");
    assert!(catalog.get("3").is_none());
    assert!(!catalog.is_empty());
}
