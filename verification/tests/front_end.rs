use vectordb::tui::app::{get_db_operations_count, get_vector_operations_count, App};
use vectordb::tui::database::{DatabaseError, DatabaseManager};
use vectordb::tui::events::{handle_event, handle_key_event, AppError, Event, Facts, Key, Request, Step};
use vectordb::tui::modal::ModalManager;
use vectordb::tui::nav;
use vectordb::tui::state::{AppState, FooterColor, ModalType, VectorListItem};
use vectordb::types::Payload;

fn no_facts() -> Facts {
    Facts { listing: None, path_exists: None, removal: None, parsed_vector: None }
}

fn press(app: &mut App, key: Key) -> Step {
    handle_key_event(app, key, &no_facts())
}

#[test]
fn typing_and_erasing() {
    let mut m = ModalManager::new();
    m.show_insert_vector();
    m.add_char('4');
    m.add_char('2');
    assert_eq!(m.input_buffer(), "42");
    m.switch_field();
    m.add_char('x');
    assert_eq!(m.secondary_input(), "x");
    m.remove_char();
    m.remove_char();
    assert_eq!(m.secondary_input(), "");
    m.switch_field();
    m.switch_field();
    assert_eq!(m.active_field(), 0);
    m.remove_char();
    assert_eq!(m.get_input_value(), "4");
    m.close();
    assert!(!m.is_showing());
    assert_eq!(m.input_buffer(), "");
}

#[test]
fn modal_selection_stays_in_list() {
    let mut m = ModalManager::new();
    m.show_database_list();
    m.select_next(2);
    m.select_next(2);
    assert_eq!(m.selected_index(), 1);
    m.select_previous();
    m.select_previous();
    assert_eq!(m.selected_index(), 0);
    m.set_selected_index(9, 3);
    assert_eq!(m.selected_index(), 2);
    m.set_selected_index(9, 0);
    assert_eq!(m.selected_index(), 0);
}

#[test]
fn modal_messages_and_footers() {
    let mut m = ModalManager::new();
    m.show_confirm_delete_database("db1".to_string());
    assert_eq!(m.error_message(), Some("Delete database 'db1'?"));
    assert_eq!(m.modal_type(), Some(&ModalType::ConfirmDeleteDatabase));
    let footer = m.footer_items();
    assert_eq!(footer.len(), 3);
    assert_eq!(footer[1], ("Enter Confirm".to_string(), FooterColor::Green));
    m.show_error("boom".to_string());
    assert_eq!(m.error_message(), Some("boom"));
    assert_eq!(m.footer_items(), vec![("Esc Dismiss".to_string(), FooterColor::Red)]);
}

#[test]
fn pages_and_selections() {
    let mut app = App::new();
    assert_eq!(app.state, AppState::Dashboard);
    assert!(matches!(press(&mut app, Key::Right), Step::Need(Request::ListDatabases)));
    assert_eq!(app.state, AppState::Dashboard);
    let facts = Facts {
        listing: Some(Ok(vec![("db1".to_string(), "./databases/db1".to_string())])),
        ..no_facts()
    };
    assert!(matches!(handle_key_event(&mut app, Key::Right, &facts), Step::Done(Ok(()))));
    assert_eq!(app.state, AppState::Database);
    assert_eq!(app.available_databases().len(), 1);
    for _ in 0..5 {
        press(&mut app, Key::Down);
    }
    assert_eq!(app.db_selected, get_db_operations_count() - 1);
    press(&mut app, Key::Right);
    assert_eq!(app.state, AppState::VectorOperations);
    for _ in 0..9 {
        press(&mut app, Key::Down);
    }
    assert_eq!(app.vector_selected, get_vector_operations_count() - 1);
    press(&mut app, Key::Left);
    assert_eq!(app.state, AppState::Database);
    handle_event(&mut app, Event::Key(Key::Char('q')), &no_facts());
    assert!(app.should_quit);
}

#[test]
fn creating_a_database_through_the_dialog() {
    let mut app = App::new();
    app.state = AppState::Database;
    press(&mut app, Key::Enter);
    assert!(app.show_modal());
    assert_eq!(app.modal_type(), Some(&ModalType::CreateDatabase));
    for c in "db2".chars() {
        press(&mut app, Key::Char(c));
    }
    assert_eq!(app.input_buffer(), "db2");
    match press(&mut app, Key::Enter) {
        Step::Need(Request::PathExists(p)) => assert_eq!(p, "./databases/db2"),
        _ => panic!("expected a path check"),
    }
    let facts = Facts { path_exists: Some(("./databases/db2".to_string(), false)), ..no_facts() };
    assert!(matches!(handle_key_event(&mut app, Key::Enter, &facts), Step::Done(Ok(()))));
    assert_eq!(app.modal_type(), Some(&ModalType::Success));
    assert_eq!(app.error_message(), Some("Created database 'db2'"));
    assert!(app.database.is_database_selected());
    assert_eq!(app.database.get_selected_database_name(), Some("db2"));
}

#[test]
fn invalid_id_is_reported() {
    let mut app = App::new();
    app.state = AppState::VectorOperations;
    app.vector_selected = 1;
    press(&mut app, Key::Enter);
    assert_eq!(app.modal_type(), Some(&ModalType::GetVector));
    press(&mut app, Key::Char('x'));
    press(&mut app, Key::Enter);
    assert_eq!(app.modal_type(), Some(&ModalType::Error));
    assert_eq!(app.error_message(), Some("IDs should be an integer!"));
    assert_eq!(AppError::InvalidInput.message(), "IDs should be an integer!");
}

#[test]
fn database_manager_refusals() {
    let mut dm = DatabaseManager::new();
    assert!(!dm.is_database_selected());
    let r = dm.create_new_database("a".to_string(), "./databases/a".to_string(), true);
    assert!(matches!(r, Err(DatabaseError::AlreadyExists(ref n)) if n == "a"));
    assert!(matches!(
        dm.select_database("a".to_string(), "./databases/a".to_string(), false),
        Err(DatabaseError::NotFound)
    ));
    dm.create_new_database("a".to_string(), "./databases/a".to_string(), false).unwrap();
    dm.create_new_database("b".to_string(), "./databases/b".to_string(), false).unwrap();
    dm.delete_database(&"./databases/a".to_string());
    assert_eq!(dm.available_databases.len(), 1);
    assert_eq!(dm.available_databases[0].0, "b");
    assert_eq!(DatabaseError::NotFound.message(), "Database path does not exist");
}

#[test]
fn listed_vectors() {
    let item = VectorListItem { id: 3, vector: vec![1, 2, 3], payload: Some(Payload {}) };
    assert_eq!(item.dims(), 3);
    assert_eq!(item.payload_summary(), "Payload");
    let bare = VectorListItem { id: 4, vector: vec![], payload: None };
    assert_eq!(bare.payload_summary(), "None");
    assert_eq!(bare.snippet(8, &vec![]), "[]");
    let shown = vec!["1.00".to_string(), "2.00".to_string()];
    assert_eq!(item.snippet(2, &shown), "[1.00, 2.00, ...]");
    let all = vec!["1.00".to_string(), "2.00".to_string(), "3.00".to_string()];
    assert_eq!(item.snippet(8, &all), "[1.00, 2.00, 3.00]");
}

#[test]
fn plain_navigation() {
    let mut app = nav::App::new();
    app.handle_event(Event::Key(Key::Enter));
    app.handle_event(Event::Key(Key::Down));
    app.handle_event(Event::Key(Key::Down));
    app.handle_event(Event::Key(Key::Down));
    app.handle_event(Event::Other);
    assert_eq!(app.state, AppState::Database);
    assert_eq!(app.db_selected, 2);
    app.handle_event(Event::Key(Key::Esc));
    assert!(app.should_quit);
}

#[test]
fn closing_twice_is_closing_once() {
    let mut m = ModalManager::new();
    m.show_success("done".to_string());
    m.close();
    let after_one = (m.is_showing(), m.modal_type().copied(), m.error_message().map(|s| s.to_string()));
    m.close();
    let after_two = (m.is_showing(), m.modal_type().copied(), m.error_message().map(|s| s.to_string()));
    assert_eq!(after_one, after_two);
    assert_eq!(after_two, (false, None, None));
}

#[test]
fn delete_matches_paths_by_component() {
    let mut dm = DatabaseManager::new();
    dm.load_available_databases(vec![
        ("a".to_string(), "./databases/a/".to_string()),
        ("b".to_string(), "./databases//b".to_string()),
        ("c".to_string(), "./databases/c".to_string()),
    ]);
    dm.delete_database(&"./databases/a".to_string());
    assert_eq!(dm.available_databases.len(), 2);
    dm.delete_database(&"./databases/b".to_string());
    assert_eq!(dm.available_databases.len(), 1);
    assert_eq!(dm.available_databases[0].0, "c");
    dm.delete_database(&"./databases/cc".to_string());
    assert_eq!(dm.available_databases.len(), 1);
}

#[test]
fn failed_listing_keeps_what_was_read() {
    let one = vec![("db1".to_string(), "./databases/db1".to_string())];
    let mut app = App::new();
    let facts = Facts { listing: Some(Ok(one.clone())), ..no_facts() };
    handle_key_event(&mut app, Key::Right, &facts);
    assert_eq!(app.available_databases().len(), 1);
    // the reload for the list dialog fails before reading anything
    press(&mut app, Key::Down);
    assert_eq!(app.db_selected, 1);
    let failed = Facts { listing: Some(Err((Some(vec![]), "denied".to_string()))), ..no_facts() };
    let r = handle_key_event(&mut app, Key::Enter, &failed);
    assert!(matches!(r, Step::Done(Ok(()))));
    assert_eq!(app.modal_type(), Some(&ModalType::Error));
    assert_eq!(app.error_message(), Some("denied"));
    assert_eq!(app.available_databases().len(), 0);
    // a failure to make the directory leaves the known databases as they were
    let mut app = App::new();
    handle_key_event(&mut app, Key::Right, &facts);
    press(&mut app, Key::Down);
    let unmade = Facts { listing: Some(Err((None, "denied".to_string()))), ..no_facts() };
    handle_key_event(&mut app, Key::Enter, &unmade);
    assert_eq!(app.available_databases().len(), 1);
    // leaving the dashboard with a failed read keeps what was read
    let mut app = App::new();
    let partial = Facts { listing: Some(Err((Some(one), "broken entry".to_string()))), ..no_facts() };
    assert!(matches!(handle_key_event(&mut app, Key::Right, &partial), Step::Done(Ok(()))));
    assert_eq!(app.state, AppState::Database);
    assert_eq!(app.available_databases().len(), 1);
}
