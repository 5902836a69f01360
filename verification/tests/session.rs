use crow::command_scores::{CommandScore, CommandScores};
use crow::crow_commands::{Commands, CrowCommand, CrowCommands};
use crow::crow_db::FilePath;
use crow::events::{CliEvent, KeyCode, KeyEvent, MouseEventKind, TermEvent};
use crow::input::{apply_edit, handle_input, EditField, Outcome};
use crow::state::{MenuItem, State};

fn record(id: &str, command: &str, description: &str) -> CrowCommand {
    CrowCommand {
        id: id.to_string(),
        command: command.to_string(),
        description: description.to_string(),
    }
}

fn fixture_records() -> Vec<CrowCommand> {
    vec![
        record("test_command_1", "echo 'hi from db'", "This is a test command"),
        record("test_command_2", "", ""),
    ]
}

fn fixture_path() -> FilePath {
    FilePath::new("./testdata", Some("crow.json"))
}

fn key(code: KeyCode) -> CliEvent<TermEvent> {
    CliEvent::Input(TermEvent::Key(KeyEvent { code, ctrl: false }))
}

fn ctrl_key(code: KeyCode) -> CliEvent<TermEvent> {
    CliEvent::Input(TermEvent::Key(KeyEvent { code, ctrl: true }))
}

#[test]
fn initializes_with_correct_data() {
    let state = State::new(Some(fixture_path()), fixture_records());

    assert_eq!(state.input().as_str(), "");
    assert_eq!(state.db_file_path().as_str(), "./testdata/crow.json");

    assert_eq!(state.detail_scroll_position(), 0);
    assert_eq!(state.has_crow_commands(), true);
    assert_eq!(state.command_list_state().selected().unwrap(), 0);
}

#[test]
fn correctly_selects_command() {
    let mut state = State::new(Some(fixture_path()), fixture_records());

    assert_eq!(state.command_list_state().selected(), Some(0));
    assert_eq!(
        state._selected_command_id(),
        Some(&"test_command_1".to_string())
    );

    state.select_command(1);

    assert_eq!(state.command_list_state().selected(), Some(1));
    assert_eq!(
        state._selected_command_id(),
        Some(&"test_command_2".to_string())
    );
}

#[test]
fn correctly_sets_crow_commands() {
    let state = State::new(Some(fixture_path()), fixture_records());

    let records = fixture_records();
    let ids = vec!["test_command_1".to_string(), "test_command_2".to_string()];
    let expected = CrowCommands::_new(Commands::normalize(&records), ids);

    assert_eq!(state.crow_commands(), &expected);
}

#[test]
fn returns_denormalized_fuzz_result_if_exists() {
    let state = State::new(Some(fixture_path()), fixture_records());

    let command_scores = CommandScores::normalize(&[
        CommandScore::new(1, vec![], "test_command_1".to_string()),
        CommandScore::new(1, vec![], "test_command_2".to_string()),
    ]);

    assert_eq!(state.fuzz_result().scores(), &command_scores);
    assert!(state
        .fuzz_result()
        ._command_ids()
        .contains(&"test_command_1".to_string()));
    assert!(state
        .fuzz_result()
        ._command_ids()
        .contains(&"test_command_2".to_string()));
}

#[test]
fn updates_fuzz_result_and_returns_it_if_not_exists() {
    let state = State::new(Some(fixture_path()), vec![]);

    let command_scores = CommandScores::normalize(&[]);

    assert_eq!(state.fuzz_result().scores(), &command_scores);
    assert_eq!(state.has_crow_commands(), false);
    assert!(state._selected_command_id().is_none());
}

#[test]
fn navigation_wraps_around_both_ways() {
    let mut state = State::new(Some(fixture_path()), fixture_records());

    assert!(matches!(
        handle_input(&key(KeyCode::Down), &mut state),
        Outcome::Continue
    ));
    assert_eq!(state.command_list_state().selected(), Some(1));

    assert!(matches!(
        handle_input(&key(KeyCode::Down), &mut state),
        Outcome::Continue
    ));
    assert_eq!(state.command_list_state().selected(), Some(0));

    assert!(matches!(
        handle_input(&key(KeyCode::Up), &mut state),
        Outcome::Continue
    ));
    assert_eq!(state.command_list_state().selected(), Some(1));
}

#[test]
fn navigation_on_empty_catalog_is_a_no_op() {
    let mut state = State::new(Some(fixture_path()), vec![]);

    assert!(matches!(
        handle_input(&key(KeyCode::Down), &mut state),
        Outcome::Continue
    ));
    assert!(state._selected_command_id().is_none());

    assert!(matches!(
        handle_input(&key(KeyCode::Up), &mut state),
        Outcome::Continue
    ));
    assert!(state._selected_command_id().is_none());
}

#[test]
fn typing_narrows_and_backspace_widens_the_result() {
    let records = vec![
        record("1", "echo 'hi'", "test command"),
        record("2", "find", "walk the tree"),
    ];
    let mut state = State::new(Some(fixture_path()), records);

    for c in ['e', 'c', 'h', 'o'] {
        assert!(matches!(
            handle_input(&key(KeyCode::Char(c)), &mut state),
            Outcome::Continue
        ));
    }

    assert_eq!(state.input().as_str(), "echo");
    assert_eq!(state._selected_command_id(), Some(&"1".to_string()));
    assert_eq!(state.fuzz_result()._command_ids().as_slice(), &["1".to_string()]);

    for _ in 0..4 {
        assert!(matches!(
            handle_input(&key(KeyCode::Backspace), &mut state),
            Outcome::Continue
        ));
    }

    assert_eq!(state.input().as_str(), "");
    assert_eq!(state.fuzz_result()._command_ids().len(), 2);
    assert_eq!(state.command_list_state().selected(), Some(0));
}

#[test]
fn backspace_on_empty_query_is_absorbed() {
    let mut state = State::new(Some(fixture_path()), fixture_records());

    assert!(matches!(
        handle_input(&key(KeyCode::Backspace), &mut state),
        Outcome::Continue
    ));

    assert_eq!(state.input().as_str(), "");
    assert_eq!(state.command_list_state().selected(), Some(0));
    assert_eq!(state._selected_command_id(), Some(&"test_command_1".to_string()));
}

#[test]
fn selection_stays_valid_across_search_delete_and_navigation() {
    let records = vec![
        record("1", "echo 'hi'", "test command"),
        record("2", "echo 'ho'", "another echo"),
        record("3", "find", "walk the tree"),
    ];
    let mut state = State::new(Some(fixture_path()), records);

    for c in ['e', 'c', 'h', 'o'] {
        handle_input(&key(KeyCode::Char(c)), &mut state);
    }
    handle_input(&key(KeyCode::Down), &mut state);

    // The narrowed list holds the two echo records; the selection resolves.
    let selected = state._selected_command_id().cloned().unwrap();
    assert!(state.crow_commands().commands().get(&selected).is_some());

    handle_input(&ctrl_key(KeyCode::Char('d')), &mut state);
    handle_input(&key(KeyCode::Char('y')), &mut state);

    // After the deletion the list shrank and the selection was repaired.
    let selected = state._selected_command_id().cloned().unwrap();
    assert!(state.crow_commands().commands().get(&selected).is_some());

    handle_input(&key(KeyCode::Up), &mut state);
    let selected = state._selected_command_id().cloned().unwrap();
    assert!(state.crow_commands().commands().get(&selected).is_some());
}

#[test]
fn delete_confirm_removes_selected_and_falls_back_to_find() {
    let records = vec![record("1", "echo one", ""), record("2", "echo two", "")];
    let mut state = State::new(Some(fixture_path()), records);

    assert_eq!(state._selected_command_id(), Some(&"1".to_string()));

    assert!(matches!(
        handle_input(&ctrl_key(KeyCode::Char('d')), &mut state),
        Outcome::Continue
    ));
    assert_eq!(state.active_menu_item(), &MenuItem::Delete);

    assert!(matches!(
        handle_input(&key(KeyCode::Char('y')), &mut state),
        Outcome::Persist
    ));

    assert_eq!(state.active_menu_item(), &MenuItem::Find);
    assert_eq!(state.input().as_str(), "");
    assert!(state.crow_commands().commands().get("1").is_none());
    assert!(state.crow_commands().commands().get("2").is_some());
    // The pattern-derived session is gone; what remains is the plain
    // full-catalog listing with the minimal score.
    for entry in state.fuzz_result().scores().denormalize() {
        assert_eq!(entry.score(), 1);
    }
    assert_eq!(state._selected_command_id(), Some(&"2".to_string()));
}

#[test]
fn delete_cancel_changes_nothing_but_the_mode() {
    let mut state = State::new(Some(fixture_path()), fixture_records());

    handle_input(&ctrl_key(KeyCode::Char('d')), &mut state);
    assert!(matches!(
        handle_input(&key(KeyCode::Char('n')), &mut state),
        Outcome::Continue
    ));

    assert_eq!(state.active_menu_item(), &MenuItem::Find);
    assert!(state.crow_commands().commands().get("test_command_1").is_some());
    assert!(state.crow_commands().commands().get("test_command_2").is_some());
}

#[test]
fn confirm_copies_the_selected_command_and_quits() {
    let mut state = State::new(Some(fixture_path()), fixture_records());

    match handle_input(&key(KeyCode::Enter), &mut state) {
        Outcome::CopyAndQuit(text) => assert_eq!(text, "echo 'hi from db'"),
        other => panic!("expected a copy-and-quit outcome, got {}", outcome_name(&other)),
    }
}

#[test]
fn quit_key_ends_the_session_from_any_mode() {
    let mut state = State::new(Some(fixture_path()), fixture_records());

    handle_input(&ctrl_key(KeyCode::Char('e')), &mut state);
    assert!(matches!(
        handle_input(&ctrl_key(KeyCode::Char('q')), &mut state),
        Outcome::Quit
    ));
}

#[test]
fn edit_keys_ask_for_the_editor_with_the_current_value() {
    let mut state = State::new(Some(fixture_path()), fixture_records());

    handle_input(&ctrl_key(KeyCode::Char('e')), &mut state);
    assert_eq!(state.active_menu_item(), &MenuItem::Edit);

    match handle_input(&key(KeyCode::Char('d')), &mut state) {
        Outcome::Edit(req) => {
            assert_eq!(req.command_id, "test_command_1");
            assert_eq!(req.field, EditField::Description);
            assert_eq!(req.prefill, "This is a test command");
        }
        other => panic!("expected an edit request, got {}", outcome_name(&other)),
    }

    match handle_input(&key(KeyCode::Char('c')), &mut state) {
        Outcome::Edit(req) => {
            assert_eq!(req.field, EditField::Command);
            assert_eq!(req.prefill, "echo 'hi from db'");
        }
        other => panic!("expected an edit request, got {}", outcome_name(&other)),
    }
}

#[test]
fn applied_edit_lands_on_the_record() {
    let mut state = State::new(Some(fixture_path()), fixture_records());

    apply_edit(
        &mut state,
        "test_command_1".to_string(),
        EditField::Description,
        Some("fresh words".to_string()),
    );

    assert_eq!(
        state.crow_commands().commands().get("test_command_1").unwrap().description,
        "fresh words"
    );
}

#[test]
fn aborted_edit_leaves_an_empty_field_not_an_unset_one() {
    let mut state = State::new(Some(fixture_path()), fixture_records());

    apply_edit(
        &mut state,
        "test_command_1".to_string(),
        EditField::Command,
        None,
    );

    assert_eq!(
        state.crow_commands().commands().get("test_command_1").unwrap().command,
        ""
    );
}

#[test]
fn edit_of_a_vanished_record_is_a_silent_no_op() {
    let mut state = State::new(Some(fixture_path()), fixture_records());

    apply_edit(
        &mut state,
        "ghost".to_string(),
        EditField::Command,
        Some("anything".to_string()),
    );

    assert_eq!(state.crow_commands().commands().get("ghost"), None);
    assert_eq!(
        state.crow_commands().commands().get("test_command_1").unwrap().command,
        "echo 'hi from db'"
    );
}

#[test]
fn scroll_moves_down_freely_and_stops_at_the_top() {
    let mut state = State::new(Some(fixture_path()), fixture_records());

    handle_input(
        &CliEvent::Input(TermEvent::Mouse(MouseEventKind::ScrollUp)),
        &mut state,
    );
    assert_eq!(state.detail_scroll_position(), 0);

    handle_input(
        &CliEvent::Input(TermEvent::Mouse(MouseEventKind::ScrollDown)),
        &mut state,
    );
    handle_input(
        &CliEvent::Input(TermEvent::Mouse(MouseEventKind::ScrollDown)),
        &mut state,
    );
    assert_eq!(state.detail_scroll_position(), 2);

    handle_input(
        &CliEvent::Input(TermEvent::Mouse(MouseEventKind::ScrollUp)),
        &mut state,
    );
    assert_eq!(state.detail_scroll_position(), 1);
}

#[test]
fn tick_moves_nothing() {
    let mut state = State::new(Some(fixture_path()), fixture_records());

    assert!(matches!(
        handle_input(&CliEvent::Tick, &mut state),
        Outcome::Continue
    ));
    assert_eq!(state.input().as_str(), "");
    assert_eq!(state.command_list_state().selected(), Some(0));
}

fn outcome_name(o: &Outcome) -> &'static str {
    match o {
        Outcome::Continue => "continue",
        Outcome::Quit => "quit",
        Outcome::CopyAndQuit(_) => "copy-and-quit",
        Outcome::Edit(_) => "edit",
        Outcome::Persist => "persist",
    }
}
