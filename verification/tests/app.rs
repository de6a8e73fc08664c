use meroshare_tui::account::{Account, NewAccount};
use meroshare_tui::app::{App, Effect, KeyCode, KeyPress, Msg, RowState, Tab};
use meroshare_tui::form::{form_outcome, new_account_form};

fn account(id: i64, name: &str) -> Account {
    Account {
        id,
        name: name.to_string(),
        client_id: 130,
        username: "u".to_string(),
        password: "p".to_string(),
        demat: "1300000".to_string(),
        client_code: "130-0".to_string(),
    }
}

fn key(code: KeyCode) -> KeyPress {
    KeyPress { code, ctrl: false }
}

fn ch(c: char) -> KeyPress {
    key(KeyCode::Char(c))
}

fn app3() -> App<String> {
    App::new(vec![account(1, "A"), account(2, "B"), account(3, "C")])
}

fn is_loading(r: &RowState<String>) -> bool {
    matches!(r, RowState::Loading)
}

#[test]
fn starts_on_dashboard_loading() {
    let app = app3();
    assert_eq!(app.tab, Tab::Dashboard);
    assert_eq!(app.rows.len(), 3);
    assert!(app.rows.iter().all(is_loading));
    assert!(app.loading);
    assert_eq!(app.selected, 0);
    assert!(app.form.is_none() && app.detail.is_none() && app.confirm_delete.is_none());
    assert!(!app.should_quit && !app.hide_amounts);
    assert_eq!(app.message, "");
    assert_eq!(app.spin, 0);
}

#[test]
fn selection_moves_and_stops_at_edges() {
    let mut app = app3();
    assert_eq!(app.on_key(ch('j')), Effect::Nothing);
    assert_eq!(app.selected, 1);
    app.on_key(key(KeyCode::Down));
    app.on_key(key(KeyCode::Down));
    assert_eq!(app.selected, 2);
    app.on_key(ch('k'));
    assert_eq!(app.selected, 1);
    app.on_key(key(KeyCode::Up));
    app.on_key(key(KeyCode::Up));
    assert_eq!(app.selected, 0);
}

#[test]
fn selection_on_empty_page_stays() {
    let mut app: App<String> = App::new(vec![]);
    app.on_key(ch('j'));
    assert_eq!(app.selected, 0);
}

#[test]
fn tab_switches_pages_and_moves_their_own_selection() {
    let mut app = app3();
    app.on_key(key(KeyCode::Tab));
    assert_eq!(app.tab, Tab::Accounts);
    app.on_key(ch('j'));
    assert_eq!(app.accounts_selected, 1);
    assert_eq!(app.selected, 0);
    app.on_key(key(KeyCode::Tab));
    assert_eq!(app.tab, Tab::Dashboard);
}

#[test]
fn quit_with_q_or_control() {
    let mut app = app3();
    app.on_key(ch('q'));
    assert!(app.should_quit);
    let mut app = app3();
    app.on_key(KeyPress { code: KeyCode::Char('c'), ctrl: true });
    assert!(app.should_quit);
    let mut app = app3();
    app.on_key(KeyPress { code: KeyCode::Char('x'), ctrl: true });
    assert!(!app.should_quit);
}

#[test]
fn hide_toggles() {
    let mut app = app3();
    app.on_key(ch('s'));
    assert!(app.hide_amounts);
    app.on_key(ch('s'));
    assert!(!app.hide_amounts);
}

#[test]
fn refresh_resets_rows_and_asks_for_fetch() {
    let mut app = app3();
    app.process_event(Msg::Account(0, Ok("a@x".to_string())));
    app.process_event(Msg::Done);
    assert!(!app.loading);
    assert_eq!(app.on_key(ch('r')), Effect::Fetch);
    assert!(app.loading);
    assert!(app.rows.iter().all(is_loading));
}

#[test]
fn fetch_reports_fill_rows() {
    let mut app = app3();
    app.process_event(Msg::Account(1, Ok("b@x".to_string())));
    app.process_event(Msg::Account(2, Err("boom".to_string())));
    app.process_event(Msg::Account(7, Ok("ignored".to_string())));
    assert!(is_loading(&app.rows[0]));
    assert!(matches!(&app.rows[1], RowState::Loaded(p) if p == "b@x"));
    assert!(matches!(&app.rows[2], RowState::Failed(e) if e == "boom"));
    assert_eq!(app.rows.len(), 3);
    assert!(app.loading);
    app.process_event(Msg::Done);
    assert!(!app.loading);
}

#[test]
fn detail_opens_only_on_loaded_row() {
    let mut app = app3();
    app.on_key(key(KeyCode::Enter));
    assert_eq!(app.detail, None);
    app.process_event(Msg::Account(0, Ok("a@x".to_string())));
    app.on_key(ch('l'));
    assert_eq!(app.detail, Some(0));
    app.on_key(ch('s'));
    assert!(app.hide_amounts);
    app.on_key(ch('j'));
    assert_eq!(app.selected, 0);
    app.on_key(ch('h'));
    assert_eq!(app.detail, None);
}

#[test]
fn delete_needs_confirmation() {
    let mut app = app3();
    app.on_key(ch('d'));
    assert_eq!(app.confirm_delete, None);
    app.on_key(key(KeyCode::Tab));
    app.on_key(ch('j'));
    app.on_key(ch('d'));
    assert_eq!(app.confirm_delete, Some(1));
    app.on_key(ch('x'));
    assert_eq!(app.confirm_delete, Some(1));
    app.on_key(ch('n'));
    assert_eq!(app.confirm_delete, None);
    assert_eq!(app.accounts.len(), 3);
}

#[test]
fn confirmed_delete_removes_and_refetches() {
    let mut app = app3();
    app.on_key(key(KeyCode::Tab));
    app.on_key(ch('j'));
    app.on_key(ch('j'));
    app.on_key(ch('d'));
    app.process_event(Msg::Done);
    assert_eq!(app.on_key(ch('y')), Effect::Delete(3));
    assert_eq!(app.message, "Deleted C");
    let names: Vec<&str> = app.accounts.iter().map(|a| a.name.as_str()).collect();
    assert_eq!(names, vec!["A", "B"]);
    assert_eq!(app.accounts_selected, 1);
    assert_eq!(app.rows.len(), 2);
    assert!(app.rows.iter().all(is_loading));
    assert!(app.loading);
    assert_eq!(app.confirm_delete, None);
}

#[test]
fn deleting_the_last_account_keeps_selection_zero() {
    let mut app: App<String> = App::new(vec![account(9, "Z")]);
    app.on_key(key(KeyCode::Tab));
    app.on_key(ch('d'));
    assert_eq!(app.on_key(ch('y')), Effect::Delete(9));
    assert!(app.accounts.is_empty());
    assert_eq!(app.accounts_selected, 0);
    assert!(app.rows.is_empty());
}

fn open_form(app: &mut App<String>) {
    app.tab = Tab::Accounts;
    app.on_key(ch('a'));
}

fn type_text(app: &mut App<String>, s: &str) {
    for c in s.chars() {
        app.on_key(ch(c));
    }
}

#[test]
fn form_opens_blank_on_accounts_page_only() {
    let mut app = app3();
    app.on_key(ch('a'));
    assert!(app.form.is_none());
    open_form(&mut app);
    let f = app.form.as_ref().unwrap();
    let labels: Vec<&str> = f.fields.iter().map(|x| x.label).collect();
    assert_eq!(labels, vec!["Name", "Client ID", "Username", "Password", "Demat", "Client Code"]);
    let secret: Vec<bool> = f.fields.iter().map(|x| x.secret).collect();
    assert_eq!(secret, vec![false, false, false, true, false, false]);
    assert!(f.fields.iter().all(|x| x.value.is_empty()));
    assert_eq!(f.focus, 0);
    assert!(f.error.is_none());
}

#[test]
fn form_focus_wraps() {
    let mut app = app3();
    open_form(&mut app);
    app.on_key(key(KeyCode::Up));
    assert_eq!(app.form.as_ref().unwrap().focus, 5);
    app.on_key(key(KeyCode::Tab));
    assert_eq!(app.form.as_ref().unwrap().focus, 0);
    app.on_key(key(KeyCode::Down));
    assert_eq!(app.form.as_ref().unwrap().focus, 1);
    for _ in 0..6 {
        app.on_key(key(KeyCode::Tab));
    }
    assert_eq!(app.form.as_ref().unwrap().focus, 1);
}

#[test]
fn form_typing_and_backspace() {
    let mut app = app3();
    open_form(&mut app);
    type_text(&mut app, "Ab");
    assert_eq!(app.form.as_ref().unwrap().fields[0].value, "Ab");
    app.on_key(KeyPress { code: KeyCode::Char('z'), ctrl: true });
    assert_eq!(app.form.as_ref().unwrap().fields[0].value, "Ab");
    app.on_key(key(KeyCode::Backspace));
    assert_eq!(app.form.as_ref().unwrap().fields[0].value, "A");
    app.on_key(key(KeyCode::Backspace));
    app.on_key(key(KeyCode::Backspace));
    assert_eq!(app.form.as_ref().unwrap().fields[0].value, "");
    app.on_key(ch('q'));
    assert!(!app.should_quit);
    assert_eq!(app.form.as_ref().unwrap().fields[0].value, "q");
}

#[test]
fn form_esc_cancels() {
    let mut app = app3();
    open_form(&mut app);
    type_text(&mut app, "x");
    assert_eq!(app.on_key(key(KeyCode::Esc)), Effect::Nothing);
    assert!(app.form.is_none());
    assert_eq!(app.accounts.len(), 3);
}

fn fill(app: &mut App<String>, vals: &[&str]) {
    for (i, v) in vals.iter().enumerate() {
        type_text(app, v);
        if i + 1 < vals.len() {
            app.on_key(key(KeyCode::Tab));
        }
    }
}

#[test]
fn form_rejects_bad_client_id() {
    let mut app = app3();
    open_form(&mut app);
    fill(&mut app, &["N", "12x", "u", "p", "d", "c"]);
    assert_eq!(app.on_key(key(KeyCode::Enter)), Effect::Nothing);
    let f = app.form.as_ref().unwrap();
    assert_eq!(f.error.as_deref(), Some("Client ID must be a number"));
    assert_eq!(f.fields[1].value, "12x");
}

#[test]
fn form_reports_number_before_missing_fields() {
    let mut app = app3();
    open_form(&mut app);
    app.on_key(key(KeyCode::Enter));
    assert_eq!(
        app.form.as_ref().unwrap().error.as_deref(),
        Some("Client ID must be a number")
    );
}

#[test]
fn form_requires_every_field() {
    let mut app = app3();
    open_form(&mut app);
    fill(&mut app, &["N", "42", "u", "   ", "d", "c"]);
    assert_eq!(app.on_key(key(KeyCode::Enter)), Effect::Nothing);
    assert_eq!(
        app.form.as_ref().unwrap().error.as_deref(),
        Some("All fields are required")
    );
}

#[test]
fn form_submits_trimmed_values() {
    let mut app = app3();
    open_form(&mut app);
    fill(&mut app, &["  Alice ", " -58 ", "v", "q", "5800000", "58-1"]);
    let e = app.on_key(key(KeyCode::Enter));
    assert_eq!(
        e,
        Effect::Add(NewAccount {
            name: "Alice".to_string(),
            client_id: -58,
            username: "v".to_string(),
            password: "q".to_string(),
            demat: "5800000".to_string(),
            client_code: "58-1".to_string(),
        })
    );
    assert_eq!(app.message, "Added Alice");
    assert!(app.form.is_none());
    app.accounts_reloaded(vec![account(1, "A"), account(4, "Alice")]);
    assert_eq!(app.accounts.len(), 2);
    assert_eq!(app.rows.len(), 2);
    assert!(app.rows.iter().all(is_loading));
    assert!(app.loading);
}

#[test]
fn form_outcome_cases() {
    let v = |xs: &[&str]| xs.iter().map(|s| s.to_string()).collect::<Vec<String>>();
    assert_eq!(form_outcome(&v(&["a", "+7", "u", "p", "d", "c"])).unwrap().client_id, 7);
    assert_eq!(
        form_outcome(&v(&["a", "9223372036854775808", "u", "p", "d", "c"])).unwrap_err(),
        "Client ID must be a number"
    );
    assert_eq!(
        form_outcome(&v(&["a", "-9223372036854775808", "u", "p", "d", "c"])).unwrap().client_id,
        i64::MIN
    );
    assert_eq!(
        form_outcome(&v(&["a", "-", "u", "p", "d", "c"])).unwrap_err(),
        "Client ID must be a number"
    );
    assert_eq!(
        form_outcome(&v(&["", "1", "u", "p", "d", "c"])).unwrap_err(),
        "All fields are required"
    );
    assert_eq!(
        form_outcome(&v(&["a", "1", "u", "p", "d", "c", ""])).unwrap_err(),
        "All fields are required"
    );
}

#[test]
fn blank_form_has_six_inputs() {
    let f = new_account_form();
    assert_eq!(f.fields.len(), 6);
    assert_eq!(f.fields[3].label, "Password");
}

#[test]
fn tick_spins_and_polls() {
    let mut app = app3();
    assert!(!app.tick(true, true));
    assert_eq!(app.spin, 1);
    app.process_event(Msg::Done);
    assert!(!app.tick(false, false));
    assert!(!app.loading);
    assert!(app.tick(false, true));
    assert!(app.loading);
    assert_eq!(app.spin, 1);
    app.spin = 255;
    app.tick(true, false);
    assert_eq!(app.spin, 0);
}

#[test]
fn spinner_frames_cycle() {
    let mut app = app3();
    let frames: Vec<char> = (0..10u8)
        .map(|i| {
            app.spin = i;
            app.spinner()
        })
        .collect();
    assert_eq!(frames, vec!['⠋', '⠙', '⠹', '⠸', '⠼', '⠴', '⠦', '⠧', '⠇', '⠏']);
    app.spin = 13;
    assert_eq!(app.spinner(), '⠸');
    app.spin = 255;
    assert_eq!(app.spinner(), '⠴');
}

#[test]
fn start_fetch_marks_all_rows_loading() {
    let mut app = app3();
    app.process_event(Msg::Account(0, Ok("x".to_string())));
    app.process_event(Msg::Done);
    app.start_fetch();
    assert!(app.loading);
    assert!(app.rows.iter().all(is_loading));
}

#[test]
fn full_fetch_fills_every_row() {
    let mut app = app3();
    app.start_fetch();
    app.process_event(Msg::Account(0, Ok("a".to_string())));
    app.process_event(Msg::Account(1, Err("e".to_string())));
    app.process_event(Msg::Account(2, Ok("c".to_string())));
    app.process_event(Msg::Done);
    assert!(!app.loading);
    assert!(matches!(&app.rows[0], RowState::Loaded(p) if p == "a"));
    assert!(matches!(&app.rows[1], RowState::Failed(e) if e == "e"));
    assert!(matches!(&app.rows[2], RowState::Loaded(p) if p == "c"));
}

#[test]
fn page_does_not_change_while_something_is_open() {
    let mut app = app3();
    app.process_event(Msg::Account(0, Ok("a".to_string())));
    app.on_key(key(KeyCode::Enter));
    app.on_key(key(KeyCode::Tab));
    assert_eq!(app.tab, Tab::Dashboard);
    assert_eq!(app.detail, Some(0));
    app.on_key(key(KeyCode::Esc));
    open_form(&mut app);
    app.on_key(key(KeyCode::Tab));
    assert_eq!(app.tab, Tab::Accounts);
    assert!(app.form.is_some() && app.detail.is_none() && app.confirm_delete.is_none());
    app.on_key(key(KeyCode::Esc));
    app.on_key(ch('d'));
    app.on_key(ch('a'));
    app.on_key(key(KeyCode::Tab));
    assert!(app.form.is_none());
    assert_eq!(app.confirm_delete, Some(0));
    assert_eq!(app.tab, Tab::Accounts);
}

#[test]
fn form_trims_unicode_white_space_only() {
    let mut app = app3();
    open_form(&mut app);
    fill(&mut app, &["\u{3000}Bo\u{2003}\u{a0}", "\t7\n", "u", "p", "d", "\u{200b}c"]);
    let e = app.on_key(key(KeyCode::Enter));
    match e {
        Effect::Add(a) => {
            assert_eq!(a.name, "Bo");
            assert_eq!(a.client_id, 7);
            assert_eq!(a.client_code, "\u{200b}c");
        }
        other => panic!("unexpected {:?}", other),
    }
}

#[test]
fn blank_form_enter_complains_about_client_id() {
    let mut app = app3();
    open_form(&mut app);
    for _ in 0..3 {
        app.on_key(key(KeyCode::Char(' ')));
    }
    app.on_key(key(KeyCode::Tab));
    app.on_key(key(KeyCode::Char(' ')));
    assert_eq!(app.on_key(key(KeyCode::Enter)), Effect::Nothing);
    assert_eq!(
        app.form.as_ref().unwrap().error.as_deref(),
        Some("Client ID must be a number")
    );
}
