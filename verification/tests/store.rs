use crow::crow_commands::CrowCommand;
use crow::crow_db::{CrowDBConnection, FilePath};

fn record(id: &str, command: &str, description: &str) -> CrowCommand {
    CrowCommand {
        id: id.to_string(),
        command: command.to_string(),
        description: description.to_string(),
    }
}

#[test]
fn reads_existing_file_instead_of_overwrite() {
    // The storage collaborator found an existing document and hands its
    // records in; the connection keeps them instead of starting over empty.
    let file_path = FilePath::new("./testdata", Some("crow.json"));
    let connection = CrowDBConnection::new(file_path);

    let expected_command_1 = record("test_command_1", "echo 'hi from db'", "This is a test command");
    let expected_command_2 = record("test_command_2", "", "");

    let connection = connection.set_commands(vec![
        expected_command_1.clone(),
        expected_command_2.clone(),
    ]);

    assert_eq!(
        connection.commands().as_slice(),
        &[expected_command_1, expected_command_2]
    );
}

#[test]
fn correctly_adds_command() {
    let file_path = FilePath::new("./testdata", Some("crow.json"));

    let command_1 = record("1", "", "");
    let command_2 = record("2", "", "");

    let mut connection = CrowDBConnection::new(file_path);
    connection.add_command(command_1.clone());
    connection.add_command(command_2.clone());

    assert_eq!(connection.commands().as_slice(), &[command_1, command_2]);
}

#[test]
fn correctly_removes_command() {
    let file_path = FilePath::new("./testdata", Some("crow.json"));

    let command_1 = record("1", "", "");
    let command_2 = record("2", "", "");

    let mut connection = CrowDBConnection::new(file_path);
    connection.add_command(command_1.clone());
    connection.add_command(command_2.clone());

    assert_eq!(
        connection.commands().as_slice(),
        &[command_1.clone(), command_2.clone()]
    );

    connection.remove_command(&command_1);

    assert_eq!(connection.commands().as_slice(), &[command_2]);
}

#[test]
fn removal_goes_by_id_never_by_content() {
    let file_path = FilePath::new("./testdata", None);

    let command_1 = record("1", "echo hi", "same content");
    let command_2 = record("2", "echo hi", "same content");

    let mut connection = CrowDBConnection::new(file_path);
    connection.add_command(command_1.clone());
    connection.add_command(command_2.clone());

    connection.remove_command(&command_1);

    assert_eq!(connection.commands().as_slice(), &[command_2]);
}

#[test]
fn file_path_joins_directory_and_file_name() {
    let p = FilePath::new("./testdata", Some("crow.json"));
    assert_eq!(p.to_str().unwrap(), "./testdata/crow.json");

    let with_slash = FilePath::new("./testdata/", Some("crow.json"));
    assert_eq!(with_slash.as_str(), "./testdata/crow.json");

    let default_name = FilePath::new("./somewhere", None);
    assert_eq!(default_name.as_str(), "./somewhere/crow_db.json");
}
