use http_tui::app::{
    App, ConfirmDelete, CreateMode, CreateOutcome, CreatePlan, EditorField, EnvRow, FocusPanel, HeaderRow,
    RequestTab, ResponseTab, TreeItemKind,
};
use http_tui::screen::shows_resolved_url;
use http_tui::edits::create_report_exec;
use http_tui::handler::handle_key;
use http_tui::dialogs::completion_split_exec;
use http_tui::keys::{AppAction, KeyCode, KeyInput, CONTROL, NO_MODIFIERS, SHIFT};
use http_tui::models::{shown_body, AppResponse, Collection, Environment, Request};
use http_tui::path::PathModel;
use http_tui::storage::{build_tree, is_collection_file, CollectionFile, DirEntryInfo};

fn t(s: &str) -> Vec<char> {
    s.chars().collect()
}

fn s(v: &Vec<char>) -> String {
    v.iter().collect()
}

fn key(code: KeyCode) -> KeyInput {
    KeyInput { code, modifiers: NO_MODIFIERS }
}

fn ch(c: char) -> KeyInput {
    KeyInput { code: KeyCode::Char(c), modifiers: NO_MODIFIERS }
}

fn shifted(c: char) -> KeyInput {
    KeyInput { code: KeyCode::Char(c), modifiers: SHIFT }
}

fn path(parts: &[&str]) -> PathModel {
    PathModel { absolute: true, parts: parts.iter().map(|p| t(p)).collect() }
}

fn two_request_app() -> App {
    let mut first = Request::new("First");
    first.url = t("https://a");
    let mut second = Request::new("Second");
    second.url = t("https://b");
    let collections = vec![CollectionFile {
        path: path(&["root", "svc.yaml"]),
        collection: Collection { name: t("svc"), requests: vec![first, second] },
    }];
    let entries = vec![DirEntryInfo {
        name: t("svc.yaml"),
        path: path(&["root", "svc.yaml"]),
        is_dir: false,
        children: Vec::new(),
    }];
    let nodes = build_tree(&entries, &collections);
    App::new(collections, nodes, path(&["root"]), Environment::empty())
}

fn response(body: &str) -> AppResponse {
    AppResponse { status: 200, status_text: t("OK"), headers: Vec::new(), body: t(body), elapsed_ms: 3 }
}

#[test]
fn create_reports_for_every_outcome() {
    let folder = CreatePlan::Folder { parent: path(&["root"]), name: t("api") };
    let file = CreatePlan::Collection { parent: path(&["root"]), file_name: t("x.yaml"), template: t("") };
    let nothing = CreatePlan::Nothing { parent: path(&["root"]) };
    assert_eq!(s(&create_report_exec(&folder, CreateOutcome::Created).unwrap()), "Created folder: api");
    assert_eq!(s(&create_report_exec(&folder, CreateOutcome::Failed(t("denied"))).unwrap()), "Error: denied");
    assert_eq!(s(&create_report_exec(&file, CreateOutcome::Created).unwrap()), "Created collection: x.yaml");
    assert_eq!(
        s(&create_report_exec(&file, CreateOutcome::AlreadyExists).unwrap()),
        "File already exists: x.yaml"
    );
    assert!(create_report_exec(&nothing, CreateOutcome::Created).is_none());
}

#[test]
fn enter_on_a_collection_file_shows_its_requests_and_opens_one() {
    let mut app = two_request_app();
    handle_key(&mut app, key(KeyCode::Down));
    assert_eq!(app.tree_selected, 1);
    handle_key(&mut app, key(KeyCode::Enter));
    assert_eq!(app.tree_items.len(), 4);
    assert!(matches!(app.tree_items[3].kind, TreeItemKind::Request { collection_index: 0, request_index: 1 }));
    handle_key(&mut app, key(KeyCode::End));
    handle_key(&mut app, key(KeyCode::Enter));
    assert_eq!(s(&app.current_request.name), "Second");
    assert_eq!(app.editor_field, EditorField::Url);
    // Enter on the file again hides the requests.
    handle_key(&mut app, key(KeyCode::Home));
    handle_key(&mut app, key(KeyCode::Down));
    handle_key(&mut app, key(KeyCode::Enter));
    assert_eq!(app.tree_items.len(), 2);
}

#[test]
fn adding_a_request_appends_it_and_edits_its_name() {
    let mut app = two_request_app();
    handle_key(&mut app, ch('a'));
    assert_eq!(s(&app.status_message), "Select a collection file first, then press 'a' to add a request");
    handle_key(&mut app, key(KeyCode::Down));
    let added = match handle_key(&mut app, ch('a')) {
        AppAction::AddRequest(a) => a,
        other => panic!("unexpected action {:?}", other),
    };
    assert_eq!((added.collection_index, added.request_index), (0, 2));
    assert_eq!(s(&app.collections[0].collection.requests[2].name), "New Request");
    app.finish_add_request(&added);
    assert_eq!(s(&app.current_request.name), "New Request");
    assert_eq!(app.editor_field, EditorField::Name);
    assert!(app.editing);
    assert_eq!(app.name_cursor, 11);
    assert_eq!(app.tree_items.len(), 5);
}

#[test]
fn deleting_the_open_request_clears_the_editor() {
    let mut app = two_request_app();
    handle_key(&mut app, key(KeyCode::Down));
    handle_key(&mut app, key(KeyCode::Enter));
    handle_key(&mut app, key(KeyCode::Down));
    let deleted = match handle_key(&mut app, shifted('D')) {
        AppAction::DeleteRequest(d) => d,
        other => panic!("unexpected action {:?}", other),
    };
    assert_eq!(s(&deleted.name), "First");
    assert_eq!(app.collections[0].collection.requests.len(), 1);
    app.finish_delete_request(&deleted);
    assert_eq!(s(&app.status_message), "Deleted request: First");
    assert_eq!(s(&app.current_request.name), "New Request");
    assert!(app.current_collection_path.is_none());
}

#[test]
fn deleting_a_path_reports_success_and_failure() {
    let mut app = two_request_app();
    app.finish_delete(&path(&["root", "svc.yaml"]), None);
    assert_eq!(s(&app.status_message), "Deleted: svc.yaml");
    app.finish_delete(&path(&["root", "svc.yaml"]), Some(t("busy")));
    assert_eq!(s(&app.status_message), "Delete failed: busy");
}

#[test]
fn the_root_directory_cannot_be_deleted() {
    let mut app = two_request_app();
    handle_key(&mut app, shifted('D'));
    assert_eq!(s(&app.status_message), "Cannot delete the root directory");
    assert!(!app.confirm_delete.is_active());
}

#[test]
fn change_root_to_a_missing_directory_is_reported() {
    let mut app = two_request_app();
    app.reject_dir_input(&t("/nowhere"));
    assert_eq!(s(&app.status_message), "Not a directory: /nowhere");
}

#[test]
fn saving_the_environment_can_fail() {
    let mut app = two_request_app();
    app.finish_save_env(Some(t("read-only")));
    assert_eq!(s(&app.status_message), "Error saving env: read-only");
}

#[test]
fn scrolling_down_then_up_returns() {
    let mut app = two_request_app();
    app.receive_response(Ok(response("[1,2,3,4,5,6]")));
    app.focus = FocusPanel::ResponseViewer;
    handle_key(&mut app, key(KeyCode::Down));
    assert_eq!(app.response_scroll, 1);
    handle_key(&mut app, key(KeyCode::Up));
    assert_eq!(app.response_scroll, 0);
    handle_key(&mut app, key(KeyCode::PageDown));
    assert_eq!(app.response_scroll, 10);
    handle_key(&mut app, key(KeyCode::Home));
    assert_eq!(app.response_scroll, 0);
}

#[test]
fn collection_files_are_yaml_files_other_than_env() {
    assert!(is_collection_file(&t("users.yaml")));
    assert!(is_collection_file(&t("users.yml")));
    assert!(!is_collection_file(&t("env.yaml")));
    assert!(!is_collection_file(&t("env.yml")));
    assert!(!is_collection_file(&t("notes.txt")));
    assert!(!is_collection_file(&t("yaml")));
}

#[test]
fn loading_then_writing_back_headers_keeps_the_request() {
    let mut app = two_request_app();
    app.collections[0].collection.requests[0].headers = vec![(t("A"), t("1")), (t("B"), t("2"))];
    app.load_request(0, 0);
    app.sync_headers_to_request();
    let pairs: Vec<(String, String)> = app.current_request.headers.iter().map(|p| (s(&p.0), s(&p.1))).collect();
    assert_eq!(pairs, vec![("A".to_string(), "1".to_string()), ("B".to_string(), "2".to_string())]);
}

#[test]
fn the_shown_body_prefers_the_pretty_text() {
    assert_eq!(s(&shown_body(&t("{\"a\":1}"), Some(t("{\n  \"a\": 1\n}")))), "{\n  \"a\": 1\n}");
    assert_eq!(s(&shown_body(&t("plain"), None)), "plain");
}

#[test]
fn capital_w_e_v_jump_between_panels() {
    let mut app = two_request_app();
    handle_key(&mut app, shifted('V'));
    assert_eq!(app.focus, FocusPanel::ResponseViewer);
    handle_key(&mut app, shifted('E'));
    assert_eq!(app.focus, FocusPanel::RequestEditor);
    handle_key(&mut app, shifted('W'));
    assert_eq!(app.focus, FocusPanel::CollectionTree);
}

#[test]
fn esc_stops_editing_and_keeps_the_text() {
    let mut app = two_request_app();
    app.focus = FocusPanel::RequestEditor;
    app.editor_field = EditorField::Url;
    handle_key(&mut app, key(KeyCode::Enter));
    handle_key(&mut app, ch('x'));
    let cursor = app.url_cursor;
    handle_key(&mut app, key(KeyCode::Esc));
    assert!(!app.editing);
    assert_eq!(s(&app.current_request.url), "https://ax");
    assert_eq!(app.url_cursor, cursor);
    assert_eq!(app.editor_field, EditorField::Url);
}

#[test]
fn r_sends_the_request_from_every_panel() {
    for focus in [FocusPanel::CollectionTree, FocusPanel::RequestEditor, FocusPanel::ResponseViewer] {
        let mut app = two_request_app();
        app.focus = focus;
        assert!(matches!(handle_key(&mut app, ch('r')), AppAction::SendRequest));
        assert!(app.is_loading);
        assert_eq!(s(&app.status_message), "Sending request...");
    }
    // While a field is edited, r is typed.
    let mut app = two_request_app();
    app.focus = FocusPanel::RequestEditor;
    app.editor_field = EditorField::Url;
    handle_key(&mut app, key(KeyCode::Enter));
    assert!(matches!(handle_key(&mut app, ch('r')), AppAction::Continue));
    assert_eq!(s(&app.current_request.url), "https://ar");
}

#[test]
fn ctrl_w_and_ctrl_u_edit_the_name() {
    let mut app = two_request_app();
    app.focus = FocusPanel::RequestEditor;
    app.editor_field = EditorField::Name;
    handle_key(&mut app, key(KeyCode::Enter));
    assert!(app.editing);
    for c in " call  ".chars() {
        handle_key(&mut app, ch(c));
    }
    assert_eq!(s(&app.current_request.name), "First call  ");
    handle_key(&mut app, KeyInput { code: KeyCode::Char('w'), modifiers: CONTROL });
    assert_eq!(s(&app.current_request.name), "First ");
    assert_eq!(app.name_cursor, 6);
    handle_key(&mut app, KeyInput { code: KeyCode::Char('u'), modifiers: CONTROL });
    assert_eq!(s(&app.current_request.name), "");
    assert_eq!(app.name_cursor, 0);
}

#[test]
fn ctrl_w_deletes_a_word_in_a_header_cell() {
    let mut app = two_request_app();
    app.focus = FocusPanel::RequestEditor;
    app.editor_field = EditorField::Url;
    handle_key(&mut app, ch('o'));
    for c in "X-Api Key".chars() {
        handle_key(&mut app, ch(c));
    }
    handle_key(&mut app, KeyInput { code: KeyCode::Char('w'), modifiers: CONTROL });
    assert_eq!(s(&app.header_rows[0].key), "X-Api ");
    handle_key(&mut app, KeyInput { code: KeyCode::Char('u'), modifiers: CONTROL });
    assert_eq!(s(&app.header_rows[0].key), "");
}

#[test]
fn resolved_headers_with_the_same_name_are_merged() {
    let mut app = two_request_app();
    app.env = Environment { variables: vec![(t("h"), t("X-Token"))] };
    app.current_request.headers =
        vec![(t("{{h}}"), t("one")), (t("Accept"), t("*/*")), (t("X-Token"), t("two"))];
    let r = app.resolved_request();
    let pairs: Vec<(String, String)> = r.headers.iter().map(|p| (s(&p.0), s(&p.1))).collect();
    assert_eq!(
        pairs,
        vec![("X-Token".to_string(), "two".to_string()), ("Accept".to_string(), "*/*".to_string())]
    );
}

#[test]
fn completion_splits_the_typed_path() {
    let split = |x: &str| {
        let (d, p) = completion_split_exec(&t(x));
        (s(&d), s(&p))
    };
    assert_eq!(split("/home/us"), ("/home".to_string(), "us".to_string()));
    assert_eq!(split("/home/"), ("/home/".to_string(), String::new()));
    assert_eq!(split("/ho"), ("/".to_string(), "ho".to_string()));
    assert_eq!(split("docs"), (String::new(), "docs".to_string()));
    assert_eq!(split("a/.."), ("a".to_string(), String::new()));
    assert_eq!(split("/home/us/."), ("/home".to_string(), "us".to_string()));
    assert_eq!(split("a//."), (String::new(), "a".to_string()));
    assert_eq!(split("/."), ("/".to_string(), String::new()));
}

#[test]
fn enter_twice_on_a_folder_restores_the_tree() {
    let entries = vec![DirEntryInfo {
        name: t("sub"),
        path: path(&["root", "sub"]),
        is_dir: true,
        children: vec![DirEntryInfo {
            name: t("inner"),
            path: path(&["root", "sub", "inner"]),
            is_dir: true,
            children: Vec::new(),
        }],
    }];
    let nodes = build_tree(&entries, &Vec::new());
    let mut app = App::new(Vec::new(), nodes, path(&["root"]), Environment::empty());
    assert_eq!(app.tree_items.len(), 3);
    handle_key(&mut app, key(KeyCode::Down));
    handle_key(&mut app, key(KeyCode::Enter));
    assert_eq!(app.tree_items.len(), 2);
    handle_key(&mut app, key(KeyCode::Enter));
    assert_eq!(app.tree_items.len(), 3);
    assert!(matches!(app.tree_nodes[0].kind, http_tui::storage::TreeNodeKind::Directory { expanded: true, .. }));
}

#[test]
fn defaults_match_a_fresh_editor() {
    assert!(matches!(CreateMode::default(), CreateMode::Closed));
    assert!(matches!(ConfirmDelete::default(), ConfirmDelete::Closed));
    assert_eq!(FocusPanel::default(), FocusPanel::CollectionTree);
    assert_eq!(RequestTab::default(), RequestTab::Headers);
    assert_eq!(ResponseTab::default(), ResponseTab::Body);
    assert_eq!(EditorField::default(), EditorField::Url);
    let h = HeaderRow::default();
    assert!(h.key.is_empty() && h.value.is_empty());
    let e = EnvRow::default();
    assert!(e.key.is_empty() && e.value.is_empty());
}

#[test]
fn the_resolved_url_is_shown_only_when_it_differs() {
    assert!(shows_resolved_url(&t("https://{{h}}/x"), &t("https://a/x"), false));
    assert!(!shows_resolved_url(&t("https://{{h}}/x"), &t("https://a/x"), true));
    assert!(!shows_resolved_url(&t("https://{{h}}/x"), &t("https://{{h}}/x"), false));
    assert!(!shows_resolved_url(&t("https://a/x"), &t("https://b/x"), false));
}
