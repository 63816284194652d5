use http_tui::app::{App, ConfirmDelete, CreateMode, EditorField, FocusPanel, HeaderRow, RequestTab};
use http_tui::handler::handle_key;
use http_tui::json_view::{apply_selection_highlight, colorize_json_line, is_float_text_exec, Shade};
use http_tui::keys::{AppAction, KeyCode, KeyInput, CONTROL, NO_MODIFIERS, SHIFT};
use http_tui::models::{AppResponse, Collection, Environment, HttpMethod, Request, StatusColor};
use http_tui::path::PathModel;
use http_tui::screen::{cursor_split, tree_scroll_offset_exec, url_parts};
use http_tui::selection::{copy_report, utf8_length};
use http_tui::storage::{build_tree, CollectionFile, DirEntryInfo, TreeNodeKind};
use http_tui::text::{decimal_text, lines_exec, trim_text};

fn t(s: &str) -> Vec<char> {
    s.chars().collect()
}

fn s(v: &Vec<char>) -> String {
    v.iter().collect()
}

fn key(code: KeyCode) -> KeyInput {
    KeyInput { code, modifiers: NO_MODIFIERS }
}

fn ch(c: char) -> KeyInput {
    KeyInput { code: KeyCode::Char(c), modifiers: NO_MODIFIERS }
}

fn path(parts: &[&str]) -> PathModel {
    PathModel { absolute: true, parts: parts.iter().map(|p| t(p)).collect() }
}

fn request(name: &str, url: &str) -> Request {
    let mut r = Request::new(name);
    r.url = t(url);
    r
}

fn sample_app() -> App {
    let mut get_users = request("Get Users", "https://api.example.com/users");
    get_users.headers.push((t("Accept"), t("application/json")));
    let collections = vec![CollectionFile {
        path: path(&["c", "api.yaml"]),
        collection: Collection { name: t("API"), requests: vec![get_users, request("Create", "https://x/y")] },
    }];
    let entries = vec![DirEntryInfo {
        name: t("api.yaml"),
        path: path(&["c", "api.yaml"]),
        is_dir: false,
        children: Vec::new(),
    }];
    let nodes = build_tree(&entries, &collections);
    App::new(collections, nodes, path(&["c"]), Environment::empty())
}

#[test]
fn substitute_replaces_known_variables_and_keeps_unknown_ones() {
    let env = Environment { variables: vec![(t("host"), t("example.com")), (t("v"), t("2"))] };
    let out = env.substitute(&t("https://{{host}}/api/{{v}}/{{missing}}"));
    assert_eq!(s(&out), "https://example.com/api/2/{{missing}}");
}

#[test]
fn substitute_without_variables_changes_nothing() {
    let env = Environment::empty();
    assert_eq!(s(&env.substitute(&t("a {{b}} c"))), "a {{b}} c");
}

#[test]
fn sorted_vars_orders_by_name() {
    let env = Environment { variables: vec![(t("b"), t("2")), (t("a"), t("1")), (t("C"), t("3"))] };
    let names: Vec<String> = env.sorted_vars().iter().map(|p| s(&p.0)).collect();
    assert_eq!(names, vec!["C", "a", "b"]);
}

#[test]
fn methods_cycle_in_order() {
    let all = HttpMethod::all();
    let names: Vec<String> = all.iter().map(|m| s(&m.name())).collect();
    assert_eq!(names, vec!["GET", "POST", "PUT", "PATCH", "DELETE", "HEAD", "OPTIONS"]);
    assert_eq!(HttpMethod::from_index(3), HttpMethod::Patch);
    assert_eq!(HttpMethod::Options.index(), 6);
}

#[test]
fn status_colors_follow_the_status_class() {
    let mut r = AppResponse { status: 200, status_text: t("OK"), headers: Vec::new(), body: Vec::new(), elapsed_ms: 5 };
    assert_eq!(r.status_color(), StatusColor::Green);
    r.status = 302;
    assert_eq!(r.status_color(), StatusColor::Yellow);
    r.status = 404;
    assert_eq!(r.status_color(), StatusColor::Red);
    r.status = 503;
    assert_eq!(r.status_color(), StatusColor::LightRed);
    r.status = 101;
    assert_eq!(r.status_color(), StatusColor::White);
}

#[test]
fn pretty_body_reformats_json() {
    let r = AppResponse { status: 200, status_text: t("OK"), headers: Vec::new(), body: t("{\"a\":1,\"b\":[true,null]}"), elapsed_ms: 1 };
    assert_eq!(s(&r.pretty_body()), "{\n  \"a\": 1,\n  \"b\": [\n    true,\n    null\n  ]\n}");
}

#[test]
fn pretty_body_keeps_text_that_is_not_json() {
    let r = AppResponse { status: 200, status_text: t("OK"), headers: Vec::new(), body: t("hello <b>"), elapsed_ms: 1 };
    assert_eq!(s(&r.pretty_body()), "hello <b>");
}

#[test]
fn trim_and_lines() {
    assert_eq!(s(&trim_text(&t("  a b \t\n"))), "a b");
    let lines: Vec<String> = lines_exec(&t("one\r\ntwo\n\nthree\n")).iter().map(s).collect();
    assert_eq!(lines, vec!["one", "two", "", "three"]);
    assert_eq!(s(&decimal_text(1205)), "1205");
    assert_eq!(s(&decimal_text(0)), "0");
}

#[test]
fn build_tree_puts_directories_first_and_keeps_collection_files() {
    let cols = vec![CollectionFile {
        path: path(&["r", "b.yaml"]),
        collection: Collection { name: t("B"), requests: Vec::new() },
    }];
    let entries = vec![
        DirEntryInfo { name: t("b.yaml"), path: path(&["r", "b.yaml"]), is_dir: false, children: Vec::new() },
        DirEntryInfo { name: t("notes.txt"), path: path(&["r", "notes.txt"]), is_dir: false, children: Vec::new() },
        DirEntryInfo { name: t("z"), path: path(&["r", "z"]), is_dir: true, children: Vec::new() },
        DirEntryInfo { name: t("other.yml"), path: path(&["r", "other.yml"]), is_dir: false, children: Vec::new() },
    ];
    let nodes = build_tree(&entries, &cols);
    assert_eq!(nodes.len(), 2);
    assert_eq!(s(&nodes[0].name), "z");
    assert!(matches!(nodes[0].kind, TreeNodeKind::Directory { expanded: true, .. }));
    assert_eq!(s(&nodes[1].name), "b");
    assert!(matches!(nodes[1].kind, TreeNodeKind::File { collection_index: 0 }));
}

#[test]
fn toggle_expand_twice_restores_the_node() {
    let entries = vec![DirEntryInfo { name: t("d"), path: path(&["d"]), is_dir: true, children: Vec::new() }];
    let mut nodes = build_tree(&entries, &Vec::new());
    nodes[0].toggle_expand();
    assert!(matches!(nodes[0].kind, TreeNodeKind::Directory { expanded: false, .. }));
    nodes[0].toggle_expand();
    assert!(matches!(nodes[0].kind, TreeNodeKind::Directory { expanded: true, .. }));
}

#[test]
fn app_starts_with_first_request_loaded() {
    let app = sample_app();
    assert_eq!(s(&app.current_request.name), "Get Users");
    assert_eq!(s(&app.status_message), "Loaded: Get Users");
    assert_eq!(app.header_rows.len(), 1);
    assert_eq!(app.focus, FocusPanel::CollectionTree);
    assert!(app.is_wf());
    // the root item and the collection file
    assert_eq!(app.tree_items.len(), 2);
}

#[test]
fn tab_cycles_through_the_panels_and_back_tab_returns() {
    let mut app = sample_app();
    assert!(matches!(handle_key(&mut app, key(KeyCode::Tab)), AppAction::Continue));
    assert_eq!(app.focus, FocusPanel::RequestEditor);
    handle_key(&mut app, key(KeyCode::Tab));
    assert_eq!(app.focus, FocusPanel::ResponseViewer);
    handle_key(&mut app, key(KeyCode::Tab));
    assert_eq!(app.focus, FocusPanel::CollectionTree);
    handle_key(&mut app, key(KeyCode::Tab));
    handle_key(&mut app, KeyInput { code: KeyCode::BackTab, modifiers: SHIFT });
    assert_eq!(app.focus, FocusPanel::CollectionTree);
}

#[test]
fn help_toggles_and_any_key_closes_it() {
    let mut app = sample_app();
    handle_key(&mut app, KeyInput { code: KeyCode::Char('?'), modifiers: SHIFT });
    assert!(app.show_help);
    handle_key(&mut app, KeyInput { code: KeyCode::Char('?'), modifiers: SHIFT });
    assert!(!app.show_help);
    handle_key(&mut app, KeyInput { code: KeyCode::Char('?'), modifiers: SHIFT });
    handle_key(&mut app, ch('x'));
    assert!(!app.show_help);
}

#[test]
fn ctrl_c_quits_and_f5_sends() {
    let mut app = sample_app();
    assert!(handle_key(&mut app, KeyInput { code: KeyCode::Char('c'), modifiers: CONTROL }).is_quit());
    assert!(matches!(handle_key(&mut app, key(KeyCode::F(5))), AppAction::SendRequest));
    assert!(app.is_loading);
    assert_eq!(s(&app.status_message), "Sending request...");
}

#[test]
fn editing_the_url_inserts_and_deletes_at_the_cursor() {
    let mut app = sample_app();
    app.focus = FocusPanel::RequestEditor;
    app.editor_field = EditorField::Url;
    handle_key(&mut app, key(KeyCode::Enter));
    assert!(app.editing);
    handle_key(&mut app, ch('/'));
    handle_key(&mut app, ch('1'));
    assert_eq!(s(&app.current_request.url), "https://api.example.com/users/1");
    handle_key(&mut app, key(KeyCode::Backspace));
    assert_eq!(s(&app.current_request.url), "https://api.example.com/users/");
    handle_key(&mut app, ch(' '));
    handle_key(&mut app, ch('q'));
    handle_key(&mut app, KeyInput { code: KeyCode::Char('w'), modifiers: CONTROL });
    assert_eq!(s(&app.current_request.url), "https://api.example.com/users/ ");
    handle_key(&mut app, KeyInput { code: KeyCode::Char('w'), modifiers: CONTROL });
    assert_eq!(s(&app.current_request.url), "");
    handle_key(&mut app, ch('z'));
    handle_key(&mut app, KeyInput { code: KeyCode::Char('u'), modifiers: CONTROL });
    assert_eq!(s(&app.current_request.url), "");
    assert!(matches!(handle_key(&mut app, key(KeyCode::Enter)), AppAction::SendRequest));
    assert!(!app.editing);
}

#[test]
fn body_editing_moves_between_lines_by_column() {
    let mut app = sample_app();
    app.focus = FocusPanel::RequestEditor;
    app.request_tab = RequestTab::Body;
    app.editor_field = EditorField::Body;
    app.editing = true;
    for c in "abcd".chars() {
        handle_key(&mut app, ch(c));
    }
    handle_key(&mut app, key(KeyCode::Enter));
    for c in "xy".chars() {
        handle_key(&mut app, ch(c));
    }
    assert_eq!(s(app.current_request.body.as_ref().unwrap()), "abcd\nxy");
    handle_key(&mut app, key(KeyCode::Up));
    assert_eq!(app.body_cursor, 2);
    handle_key(&mut app, key(KeyCode::End));
    assert_eq!(app.body_cursor, 4);
    handle_key(&mut app, key(KeyCode::Down));
    assert_eq!(app.body_cursor, 7);
    handle_key(&mut app, key(KeyCode::Home));
    assert_eq!(app.body_cursor, 5);
}

#[test]
fn header_rows_are_added_edited_written_back_and_deleted() {
    let mut app = sample_app();
    app.focus = FocusPanel::RequestEditor;
    app.editor_field = EditorField::Url;
    handle_key(&mut app, ch('o'));
    assert_eq!(app.header_rows.len(), 2);
    assert_eq!(app.header_selected, 1);
    assert!(app.editing);
    handle_key(&mut app, ch('X'));
    handle_key(&mut app, key(KeyCode::Tab));
    handle_key(&mut app, ch('1'));
    handle_key(&mut app, key(KeyCode::Esc));
    app.sync_headers_to_request();
    let pairs: Vec<(String, String)> =
        app.current_request.headers.iter().map(|p| (s(&p.0), s(&p.1))).collect();
    assert_eq!(pairs, vec![("Accept".to_string(), "application/json".to_string()), ("X".to_string(), "1".to_string())]);
    handle_key(&mut app, ch('d'));
    assert_eq!(app.header_rows.len(), 1);
    assert_eq!(app.header_selected, 0);
    assert_eq!(s(&app.status_message), "Header deleted");
}

#[test]
fn later_header_rows_win_and_empty_keys_are_skipped() {
    let mut app = sample_app();
    app.header_rows = vec![
        HeaderRow { key: t("A"), value: t("1") },
        HeaderRow { key: t(""), value: t("ignored") },
        HeaderRow { key: t("A"), value: t("2") },
    ];
    app.sync_headers_to_request();
    assert_eq!(app.current_request.headers.len(), 1);
    assert_eq!(s(&app.current_request.headers[0].1), "2");
}

#[test]
fn method_keys_cycle_and_report() {
    let mut app = sample_app();
    app.focus = FocusPanel::RequestEditor;
    handle_key(&mut app, ch('m'));
    assert_eq!(app.current_request.method, HttpMethod::Post);
    assert_eq!(s(&app.status_message), "Method: POST");
    handle_key(&mut app, KeyInput { code: KeyCode::Char('M'), modifiers: SHIFT });
    handle_key(&mut app, KeyInput { code: KeyCode::Char('M'), modifiers: SHIFT });
    assert_eq!(app.current_request.method, HttpMethod::Options);
}

#[test]
fn saving_without_a_collection_reports_the_error() {
    let mut app = sample_app();
    handle_key(&mut app, ch('n')); // not in the editor: opens the create dialog
    assert!(matches!(app.create_mode, CreateMode::Collection { .. }));
    handle_key(&mut app, key(KeyCode::Esc));
    app.focus = FocusPanel::RequestEditor;
    handle_key(&mut app, ch('n'));
    assert_eq!(s(&app.status_message), "New request");
    app.current_collection_path = None;
    let action = handle_key(&mut app, KeyInput { code: KeyCode::Char('s'), modifiers: CONTROL });
    assert!(matches!(action, AppAction::Continue));
    assert_eq!(s(&app.status_message), "Error saving: No collection file associated");
}

#[test]
fn saving_stores_the_request_in_its_collection() {
    let mut app = sample_app();
    app.current_request.url = t("https://changed");
    let action = handle_key(&mut app, KeyInput { code: KeyCode::Char('s'), modifiers: CONTROL });
    assert!(matches!(action, AppAction::WriteCollection(0)));
    assert_eq!(s(&app.collections[0].collection.requests[0].url), "https://changed");
    app.finish_save_request(None);
    assert_eq!(s(&app.status_message), "Saved: Get Users");
}

#[test]
fn create_dialog_plans_a_collection_file() {
    let mut app = sample_app();
    handle_key(&mut app, ch('n'));
    for c in "tools".chars() {
        handle_key(&mut app, ch(c));
    }
    match handle_key(&mut app, key(KeyCode::Enter)) {
        AppAction::Create(http_tui::app::CreatePlan::Collection { file_name, template, .. }) => {
            assert_eq!(s(&file_name), "tools.yaml");
            assert_eq!(s(&template), "name: tools\nrequests: []\n");
        },
        other => panic!("unexpected action {:?}", other),
    }
    assert!(!app.create_mode.is_active());
}

#[test]
fn deleting_a_directory_asks_first_and_can_be_cancelled() {
    let entries = vec![DirEntryInfo { name: t("sub"), path: path(&["c", "sub"]), is_dir: true, children: Vec::new() }];
    let nodes = build_tree(&entries, &Vec::new());
    let mut app = App::new(Vec::new(), nodes, path(&["c"]), Environment::empty());
    handle_key(&mut app, key(KeyCode::Down));
    handle_key(&mut app, KeyInput { code: KeyCode::Char('D'), modifiers: SHIFT });
    match &app.confirm_delete {
        ConfirmDelete::Pending { description, .. } => {
            assert_eq!(s(description), "folder \"sub\" and ALL its contents")
        },
        ConfirmDelete::Closed => panic!("expected a pending delete"),
    }
    handle_key(&mut app, ch('n'));
    assert!(!app.confirm_delete.is_active());
    assert_eq!(s(&app.status_message), "Delete cancelled");
}

#[test]
fn environment_editor_rows_are_saved_with_trimmed_keys() {
    let mut app = sample_app();
    handle_key(&mut app, ch('e'));
    assert!(app.show_env_editor);
    handle_key(&mut app, ch('o'));
    for c in " K ".chars() {
        handle_key(&mut app, ch(c));
    }
    handle_key(&mut app, key(KeyCode::Tab));
    for c in "v".chars() {
        handle_key(&mut app, ch(c));
    }
    handle_key(&mut app, key(KeyCode::Esc));
    let action = handle_key(&mut app, KeyInput { code: KeyCode::Char('s'), modifiers: CONTROL });
    assert!(matches!(action, AppAction::WriteEnv));
    assert_eq!(app.env.variables.len(), 1);
    assert_eq!(s(&app.env.variables[0].0), "K");
    assert_eq!(s(&app.env.variables[0].1), "v");
    app.finish_save_env(None);
    assert_eq!(s(&app.status_message), "Environment saved");
}

#[test]
fn response_status_line_and_selection() {
    let mut app = sample_app();
    app.receive_response(Ok(AppResponse {
        status: 200,
        status_text: t("OK"),
        headers: Vec::new(),
        body: t("{\"a\":1}"),
        elapsed_ms: 12,
    }));
    assert_eq!(s(&app.status_message), "200 OK — 12ms");
    app.response_sel_start = Some((1, 8));
    app.response_sel_end = Some((1, 2));
    assert_eq!(s(&app.selected_response_text().unwrap()), "\"a\": 1");
    app.receive_response(Err(t("timeout")));
    assert_eq!(s(&app.status_message), "Request error: timeout");
}

#[test]
fn copy_report_counts_bytes() {
    assert_eq!(s(&copy_report(&Some(t("héllo")), &None)), "Copied 6 chars");
    assert_eq!(s(&copy_report(&None, &None)), "No text selected");
    assert_eq!(s(&copy_report(&Some(t("x")), &Some(t("busy")))), "Clipboard error: busy");
    assert_eq!(utf8_length(&t("a€😀")), 8);
}

#[test]
fn float_texts_follow_rust_syntax() {
    for ok in ["1", "-2.5", "+.5", "1.", "1e5", "2.5E-3", "inf", "-Infinity", "NaN"] {
        assert!(is_float_text_exec(&t(ok)), "{ok}");
    }
    for bad in ["", ".", "e5", "1e", "1.2.3", "0x10", "1_000", " 1", "infin"] {
        assert!(!is_float_text_exec(&t(bad)), "{bad}");
    }
}

#[test]
fn json_lines_are_coloured() {
    let pieces = colorize_json_line(&t("  \"count\": 42,"));
    let got: Vec<(String, Shade)> = pieces.iter().map(|p| (s(&p.0), p.1)).collect();
    assert_eq!(
        got,
        vec![
            ("  ".to_string(), Shade::Plain),
            ("\"count\"".to_string(), Shade::Key),
            (": ".to_string(), Shade::Separator),
            ("42".to_string(), Shade::Number),
        ]
    );
    let pieces = colorize_json_line(&t("    true,"));
    assert_eq!(pieces[1].1, Shade::Boolean);
    assert_eq!(s(&pieces[1].0), "true");
    let pieces = colorize_json_line(&t("\"a:b\""));
    assert_eq!(pieces[1].1, Shade::Text);
}

#[test]
fn selection_highlight_splits_pieces() {
    let pieces = vec![(t("abc"), Shade::Key), (t("def"), Shade::Other)];
    let out = apply_selection_highlight(&pieces, 0, Some(((0, 2), (0, 3))));
    let got: Vec<(String, bool)> = out.iter().map(|p| (s(&p.0), p.2)).collect();
    assert_eq!(
        got,
        vec![
            ("ab".to_string(), false),
            ("c".to_string(), true),
            ("d".to_string(), true),
            ("ef".to_string(), false),
        ]
    );
    let untouched = apply_selection_highlight(&pieces, 5, Some(((0, 2), (1, 3))));
    assert!(untouched.iter().all(|p| !p.2));
}

#[test]
fn url_variables_are_split_out() {
    let parts: Vec<(String, bool)> = url_parts(&t("https://{{host}}/a/{{id}}?q={{x"))
        .iter()
        .map(|p| (s(&p.0), p.1))
        .collect();
    assert_eq!(
        parts,
        vec![
            ("https://".to_string(), false),
            ("{{host}}".to_string(), true),
            ("/a/".to_string(), false),
            ("{{id}}".to_string(), true),
            ("?q={{x".to_string(), false),
        ]
    );
}

#[test]
fn cursor_split_and_tree_scrolling() {
    let (a, b, c) = cursor_split(&t("hello"), 2);
    assert_eq!((s(&a), s(&b), s(&c)), ("he".to_string(), "l".to_string(), "lo".to_string()));
    let (a, b, c) = cursor_split(&t("hi"), 9);
    assert_eq!((s(&a), s(&b), s(&c)), ("hi".to_string(), " ".to_string(), String::new()));
    assert_eq!(tree_scroll_offset_exec(10, 4), 7);
    assert_eq!(tree_scroll_offset_exec(2, 4), 0);
}

#[test]
fn change_root_dialog_completes_and_applies() {
    let mut app = sample_app();
    handle_key(&mut app, KeyInput { code: KeyCode::Char('o'), modifiers: CONTROL });
    assert!(app.show_dir_input);
    assert_eq!(s(&app.dir_input), "/c");
    let action = handle_key(&mut app, key(KeyCode::Tab));
    assert!(matches!(action, AppAction::CompleteDir));
    app.complete_dir_input(
        &t(""),
        &vec![(t("zeta"), t("/c/zeta")), (t("alpha"), t("/c/alpha"))],
    );
    assert_eq!(s(&app.dir_input), "/c/alpha");
    assert_eq!(app.dir_input_cursor, 8);
    match handle_key(&mut app, key(KeyCode::Enter)) {
        AppAction::ChangeRoot(raw) => assert_eq!(s(&raw), "/c/alpha"),
        other => panic!("unexpected action {:?}", other),
    }
    assert!(!app.show_dir_input);
    app.apply_dir_input(&t("/c/alpha"), path(&["c", "alpha"]), Vec::new(), Vec::new(), Environment::empty());
    assert_eq!(s(&app.status_message), "Root changed to: /c/alpha");
    assert_eq!(app.tree_items.len(), 1);
}

#[test]
fn mouse_wheel_scrolls_the_response_panel() {
    let mut app = sample_app();
    app.response_rect = http_tui::app::Rect { x: 10, y: 10, width: 20, height: 5 };
    http_tui::mouse::handle_mouse(
        &mut app,
        http_tui::keys::MouseInput { kind: http_tui::keys::MouseKind::ScrollDown, column: 12, row: 11 },
    );
    assert_eq!(app.response_scroll, 3);
    http_tui::mouse::handle_mouse(
        &mut app,
        http_tui::keys::MouseInput { kind: http_tui::keys::MouseKind::ScrollUp, column: 12, row: 11 },
    );
    assert_eq!(app.response_scroll, 0);
}

#[test]
fn resolved_request_substitutes_everywhere() {
    let mut app = sample_app();
    app.env = Environment { variables: vec![(t("tok"), t("abc"))] };
    app.current_request.url = t("https://h/{{tok}}");
    app.current_request.headers = vec![(t("Authorization"), t("Bearer {{tok}}"))];
    app.current_request.body = Some(t("{\"t\":\"{{tok}}\"}"));
    let r = app.resolved_request();
    assert_eq!(s(&r.url), "https://h/abc");
    assert_eq!(s(&r.headers[0].1), "Bearer abc");
    assert_eq!(s(r.body.as_ref().unwrap()), "{\"t\":\"abc\"}");
}
