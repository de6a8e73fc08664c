use meroshare_tui::account::Account;
use meroshare_tui::app::{App, RowState, Tab};
use meroshare_tui::display::{account_email, highlight_row_y, mask_secret};
use meroshare_tui::form::new_account_form;

fn app() -> App<()> {
    App::new(vec![Account {
        id: 1,
        name: "A".to_string(),
        client_id: 1,
        username: "u".to_string(),
        password: "p".to_string(),
        demat: "d".to_string(),
        client_code: "c".to_string(),
    }])
}

#[test]
fn money_shown_or_masked() {
    let mut a = app();
    assert_eq!(a.money("1234.50"), "1,234.50");
    a.hide_amounts = true;
    assert_eq!(a.money("1234.50"), "••••");
}

#[test]
fn profit_and_loss_text() {
    let mut a = app();
    assert_eq!(a.pl_text(true, "1234.00"), "+1,234.00");
    assert_eq!(a.pl_text(false, "-1234.00"), "-1,234.00");
    assert_eq!(a.pl_text(true, "-0.00"), "+-0.00");
    a.hide_amounts = true;
    assert_eq!(a.pl_text(true, "1.00"), "••••");
}

#[test]
fn footer_hints_and_status() {
    let mut a = app();
    let (l, r) = a.footer_text();
    assert_eq!(l, " q quit  |  Tab switch  |  s hide  |  r refresh  |  h/j/k/l move  ");
    assert_eq!(r, "⠋ fetching...");
    a.tab = Tab::Accounts;
    a.loading = false;
    a.message = "Added X".to_string();
    let (l, r) = a.footer_text();
    assert_eq!(l, " q quit  |  Tab switch  |  a add  |  d delete  |  s hide  |  r refresh  ");
    assert_eq!(r, "Added X");
    a.form = Some(new_account_form());
    let (l, _) = a.footer_text();
    assert_eq!(l, " q quit  |  Tab switch  |  s hide  |  r refresh  |  h/j/k/l move  ");
}

#[test]
fn secrets_masked_per_byte() {
    assert_eq!(mask_secret(""), "");
    assert_eq!(mask_secret("abc"), "***");
    assert_eq!(mask_secret("pä"), "***");
}

#[test]
fn highlight_box_position() {
    assert_eq!(highlight_row_y(2, 0, 0), 5);
    assert_eq!(highlight_row_y(2, 4, 1), 14);
    assert_eq!(highlight_row_y(2, 1, 3), 5);
}

#[test]
fn account_email_by_row_state() {
    let rows: Vec<RowState<String>> = vec![
        RowState::Loaded("a@x.test".to_string()),
        RowState::Loading,
        RowState::Failed("boom".to_string()),
    ];
    let email = |p: &String| p.clone();
    assert_eq!(account_email(&rows, 0, email), "a@x.test");
    assert_eq!(account_email(&rows, 1, email), "...");
    assert_eq!(account_email(&rows, 2, email), "ERR");
    assert_eq!(account_email(&rows, 3, email), "ERR");
}
