//! What each key does, stated field by field: on the pages, in the holdings
//! view, while a deletion awaits confirmation, and with Control held.

use vstd::prelude::*;
use crate::account::{AccountView, NewAccountView};
use crate::app::{
    AppView, EffectView, KeyCode, KeyPress, Msg, RowView, Tab, event_step, fetching, initial,
    key_step, tick_step,
};
use crate::form::{FormView, blank_form};
use crate::text::{parsed_i64, trimmed};
use crate::laws::{key, plain};

verus! {

/// Law: `q` quits, on either page.
pub proof fn lemma_q_quits<P>(s: AppView<P>)
    requires
        plain(s),
    ensures
        key_step(s, key(KeyCode::Char('q'))).0 == (AppView { should_quit: true, ..s }),
        key_step(s, key(KeyCode::Char('q'))).1 == EffectView::Nothing,
{
}

/// Law: with Control held, `c` and `q` quit and every other key does
/// nothing, on either page.
pub proof fn lemma_control_keys<P>(s: AppView<P>, code: KeyCode)
    requires
        plain(s),
    ensures
        (code == KeyCode::Char('c') || code == KeyCode::Char('q')) ==> key_step(
            s,
            (KeyPress { code, ctrl: true }),
        ).0 == (AppView { should_quit: true, ..s }),
        !(code == KeyCode::Char('c') || code == KeyCode::Char('q')) ==> key_step(
            s,
            (KeyPress { code, ctrl: true }),
        ).0 == s,
        key_step(s, (KeyPress { code, ctrl: true })).1 == EffectView::Nothing,
{
}

/// Law: `s` shows or hides the amounts, on either page, and changes nothing
/// else.
pub proof fn lemma_s_toggles_amounts<P>(s: AppView<P>)
    requires
        plain(s),
    ensures
        key_step(s, key(KeyCode::Char('s'))).0 == (AppView { hide_amounts: !s.hide_amounts, ..s }),
        key_step(s, key(KeyCode::Char('s'))).1 == EffectView::Nothing,
{
}

/// Law: `r` starts a fetch of every account, on either page: every row goes
/// back to loading, one per account.
pub proof fn lemma_r_refreshes<P>(s: AppView<P>)
    requires
        plain(s),
    ensures
        key_step(s, key(KeyCode::Char('r'))).0 == (AppView {
            loading: true,
            rows: Seq::new(s.accounts.len(), |i: int| RowView::<P>::Loading),
            ..s
        }),
        key_step(s, key(KeyCode::Char('r'))).1 == EffectView::Fetch,
{
}

/// Law: Tab switches to the other page and changes nothing else.
pub proof fn lemma_tab_switches_page<P>(s: AppView<P>)
    requires
        plain(s),
    ensures
        key_step(s, key(KeyCode::Tab)).0 == (AppView {
            tab: if s.tab == Tab::Dashboard {
                Tab::Accounts
            } else {
                Tab::Dashboard
            },
            ..s
        }),
        key_step(s, key(KeyCode::Tab)).1 == EffectView::Nothing,
{
}

/// Law: on the dashboard, Enter or `l` on a fetched row opens that row's
/// holdings; on a row still loading or failed, past the rows, or on the
/// accounts page, they do nothing.
pub proof fn lemma_enter_opens_selected_row<P>(s: AppView<P>, c: KeyCode)
    requires
        plain(s),
        c == KeyCode::Enter || c == KeyCode::Char('l'),
    ensures
        s.tab == Tab::Dashboard && s.selected < s.rows.len() && s.rows[s.selected as int] is Loaded
            ==> key_step(s, key(c)).0 == (AppView { detail: Some(s.selected), ..s }),
        !(s.tab == Tab::Dashboard && s.selected < s.rows.len() && s.rows[s.selected as int] is Loaded)
            ==> key_step(s, key(c)).0 == s,
        key_step(s, key(c)).1 == EffectView::Nothing,
{
}

/// Law: `a` opens the blank form on the accounts page and does nothing on
/// the dashboard.
pub proof fn lemma_a_opens_form<P>(s: AppView<P>)
    requires
        plain(s),
    ensures
        s.tab == Tab::Accounts ==> key_step(s, key(KeyCode::Char('a'))).0 == (AppView {
            form: Some(blank_form()),
            ..s
        }),
        s.tab == Tab::Dashboard ==> key_step(s, key(KeyCode::Char('a'))).0 == s,
        key_step(s, key(KeyCode::Char('a'))).1 == EffectView::Nothing,
{
}

/// Law: `d` asks to confirm deleting the selected account on a non-empty
/// accounts page, and does nothing otherwise.
pub proof fn lemma_d_asks_confirmation<P>(s: AppView<P>)
    requires
        plain(s),
    ensures
        s.tab == Tab::Accounts && s.accounts.len() > 0 ==> key_step(s, key(KeyCode::Char('d'))).0 == (
        AppView { confirm_delete: Some(s.accounts_selected), ..s }),
        !(s.tab == Tab::Accounts && s.accounts.len() > 0) ==> key_step(s, key(KeyCode::Char('d'))).0
            == s,
        key_step(s, key(KeyCode::Char('d'))).1 == EffectView::Nothing,
{
}

/// Law: on the dashboard, Down or `j` selects the next row and Up or `k` the
/// previous one, stopping at the ends; nothing else changes.
pub proof fn lemma_dashboard_moves<P>(s: AppView<P>, down: KeyCode, up: KeyCode)
    requires
        plain(s),
        s.tab == Tab::Dashboard,
        s.selected < s.rows.len() <= i32::MAX,
        down == KeyCode::Down || down == KeyCode::Char('j'),
        up == KeyCode::Up || up == KeyCode::Char('k'),
    ensures
        key_step(s, key(down)).0 == (AppView {
            selected: if s.selected + 1 < s.rows.len() {
                (s.selected + 1) as usize
            } else {
                s.selected
            },
            ..s
        }),
        key_step(s, key(up)).0 == (AppView {
            selected: if s.selected > 0 {
                (s.selected - 1) as usize
            } else {
                0
            },
            ..s
        }),
        key_step(s, key(down)).1 == EffectView::Nothing,
        key_step(s, key(up)).1 == EffectView::Nothing,
{
    assert((s.rows.len() as i32) == s.rows.len());
    assert((s.selected as i32) == s.selected);
}

/// Law: on the accounts page, Down or `j` selects the next account and Up or
/// `k` the previous one, stopping at the ends; nothing else changes.
pub proof fn lemma_accounts_moves<P>(s: AppView<P>, down: KeyCode, up: KeyCode)
    requires
        plain(s),
        s.tab == Tab::Accounts,
        s.accounts_selected < s.accounts.len() <= i32::MAX,
        down == KeyCode::Down || down == KeyCode::Char('j'),
        up == KeyCode::Up || up == KeyCode::Char('k'),
    ensures
        key_step(s, key(down)).0 == (AppView {
            accounts_selected: if s.accounts_selected + 1 < s.accounts.len() {
                (s.accounts_selected + 1) as usize
            } else {
                s.accounts_selected
            },
            ..s
        }),
        key_step(s, key(up)).0 == (AppView {
            accounts_selected: if s.accounts_selected > 0 {
                (s.accounts_selected - 1) as usize
            } else {
                0
            },
            ..s
        }),
        key_step(s, key(down)).1 == EffectView::Nothing,
        key_step(s, key(up)).1 == EffectView::Nothing,
{
    assert((s.accounts.len() as i32) == s.accounts.len());
    assert((s.accounts_selected as i32) == s.accounts_selected);
}

/// The keys a page acts on without Control.
pub open spec fn page_key(c: KeyCode) -> bool {
    c == KeyCode::Char('q') || c == KeyCode::Char('s') || c == KeyCode::Char('r') || c
        == KeyCode::Tab || c == KeyCode::Down || c == KeyCode::Char('j') || c == KeyCode::Up || c
        == KeyCode::Char('k') || c == KeyCode::Enter || c == KeyCode::Char('l') || c
        == KeyCode::Char('a') || c == KeyCode::Char('d')
}

/// Law: every other key does nothing on a page.
pub proof fn lemma_other_page_keys<P>(s: AppView<P>, c: KeyCode)
    requires
        plain(s),
        !page_key(c),
    ensures
        key_step(s, key(c)).0 == s,
        key_step(s, key(c)).1 == EffectView::Nothing,
{
}

/// Law: in the holdings view, Esc, `q`, Enter and `h` close it; `s` shows or
/// hides the amounts; every other key, with or without Control, does
/// nothing; and no key asks anything of the outside.
pub proof fn lemma_detail_keys<P>(s: AppView<P>, k: KeyPress)
    requires
        s.form is None,
        s.confirm_delete is None,
        s.detail is Some,
    ensures
        (k.code == KeyCode::Esc || k.code == KeyCode::Char('q') || k.code == KeyCode::Enter
            || k.code == KeyCode::Char('h')) ==> key_step(s, k).0 == (AppView { detail: None, ..s }),
        k.code == KeyCode::Char('s') ==> key_step(s, k).0 == (AppView {
            hide_amounts: !s.hide_amounts,
            ..s
        }),
        !(k.code == KeyCode::Esc || k.code == KeyCode::Char('q') || k.code == KeyCode::Enter
            || k.code == KeyCode::Char('h') || k.code == KeyCode::Char('s')) ==> key_step(s, k).0
            == s,
        key_step(s, k).1 == EffectView::Nothing,
{
}

/// Law: while a deletion awaits confirmation, `n` and Esc (with or without
/// Control) close the dialog and change nothing else.
pub proof fn lemma_confirm_cancel<P>(s: AppView<P>, k: KeyPress)
    requires
        s.form is None,
        s.confirm_delete is Some,
        k.code == KeyCode::Char('n') || k.code == KeyCode::Esc,
    ensures
        key_step(s, k).0 == (AppView { confirm_delete: None, ..s }),
        key_step(s, k).1 == EffectView::Nothing,
{
}

/// Law: while a deletion awaits confirmation, every key but `y`, `n` and Esc
/// does nothing.
pub proof fn lemma_confirm_other_keys<P>(s: AppView<P>, k: KeyPress)
    requires
        s.form is None,
        s.confirm_delete is Some,
        !(k.code == KeyCode::Char('y') || k.code == KeyCode::Char('n') || k.code == KeyCode::Esc),
    ensures
        key_step(s, k).0 == s,
        key_step(s, k).1 == EffectView::Nothing,
{
}

/// Law: no key deletes or asks to delete an account unless a deletion awaits
/// confirmation and the key is `y`; no key but Enter in the form asks to
/// store one; and the listed accounts change only on that `y`.
pub proof fn lemma_only_y_deletes<P>(s: AppView<P>, k: KeyPress)
    requires
        !(s.form is None && s.confirm_delete is Some && k.code == KeyCode::Char('y')),
    ensures
        key_step(s, k).0.accounts == s.accounts,
        !(key_step(s, k).1 is Delete),
        key_step(s, k).1 is Add ==> s.form is Some && k.code == KeyCode::Enter,
{
}

/// Law: `y` on a pending deletion deletes that account: the effect names its
/// id, the list loses exactly it, the message names it, the dialog closes,
/// and every remaining account's row is fetched again.
pub proof fn lemma_y_deletes_confirmed<P>(s: AppView<P>, k: KeyPress, i: usize)
    requires
        s.form is None,
        s.confirm_delete == Some(i),
        i < s.accounts.len(),
        k.code == KeyCode::Char('y'),
    ensures
        key_step(s, k).1 == EffectView::Delete(s.accounts[i as int].id),
        key_step(s, k).0.accounts == s.accounts.subrange(0, i as int) + s.accounts.subrange(
            i + 1,
            s.accounts.len() as int,
        ),
        key_step(s, k).0.message == "Deleted "@ + s.accounts[i as int].name,
        key_step(s, k).0.confirm_delete is None,
        key_step(s, k).0.loading,
        key_step(s, k).0.rows == Seq::new((s.accounts.len() - 1) as nat, |j: int| RowView::<P>::Loading),
        key_step(s, k).0.tab == s.tab,
        key_step(s, k).0.selected == s.selected,
{
    assert(key_step(s, k).0.accounts =~= s.accounts.subrange(0, i as int) + s.accounts.subrange(
        i + 1,
        s.accounts.len() as int,
    ));
    assert(key_step(s, k).0.rows =~= Seq::new(
        (s.accounts.len() - 1) as nat,
        |j: int| RowView::<P>::Loading,
    ));
}

/// Law: `y` on a pending deletion keeps the accounts page's selection on the
/// shortened list: it moves to the new last account when it fell off the
/// end, and stays otherwise.
pub proof fn lemma_y_keeps_selection_on_list<P>(s: AppView<P>, k: KeyPress, i: usize)
    requires
        s.form is None,
        s.confirm_delete == Some(i),
        i < s.accounts.len(),
        k.code == KeyCode::Char('y'),
    ensures
        s.accounts_selected + 1 >= s.accounts.len() && s.accounts.len() > 1 ==> key_step(s, k).0.accounts_selected
            == s.accounts.len() - 2,
        !(s.accounts_selected + 1 >= s.accounts.len() && s.accounts.len() > 1) ==> key_step(
            s,
            k,
        ).0.accounts_selected == s.accounts_selected,
{
}

/// Law: at start-up the dashboard shows one loading row per account, the
/// first row selected, nothing open, amounts shown, no message.
pub proof fn lemma_initial_screen<P>(accounts: Seq<AccountView>)
    ensures
        initial::<P>(accounts).accounts == accounts,
        initial::<P>(accounts).tab == Tab::Dashboard,
        initial::<P>(accounts).rows == Seq::new(accounts.len(), |i: int| RowView::<P>::Loading),
        initial::<P>(accounts).selected == 0,
        initial::<P>(accounts).accounts_selected == 0,
        initial::<P>(accounts).detail is None,
        initial::<P>(accounts).form is None,
        initial::<P>(accounts).confirm_delete is None,
        initial::<P>(accounts).loading,
        !initial::<P>(accounts).should_quit,
        !initial::<P>(accounts).hide_amounts,
        initial::<P>(accounts).message.len() == 0,
        initial::<P>(accounts).spin == 0,
{
}

/// Law: a started fetch sets every row loading, one per account, raises the
/// loading flag, and changes nothing else.
pub proof fn lemma_fetch_start<P>(s: AppView<P>)
    ensures
        fetching(s) == (AppView {
            loading: true,
            rows: Seq::new(s.accounts.len(), |i: int| RowView::<P>::Loading),
            ..s
        }),
{
}

/// Law: a fetched portfolio fills the row it names; a failure puts its
/// message there; a report for a row that does not exist changes nothing;
/// the end of the fetch only clears the loading flag.
pub proof fn lemma_reports<P>(s: AppView<P>, i: usize, p: P, e: String)
    ensures
        i < s.rows.len() ==> event_step(s, Msg::Account(i, Ok(p))) == (AppView {
            rows: s.rows.update(i as int, RowView::Loaded(p)),
            ..s
        }),
        i < s.rows.len() ==> event_step(s, Msg::Account(i, Err(e))) == (AppView {
            rows: s.rows.update(i as int, RowView::Failed(e@)),
            ..s
        }),
        i >= s.rows.len() ==> event_step(s, Msg::Account(i, Ok(p))) == s,
        i >= s.rows.len() ==> event_step(s, Msg::Account(i, Err(e))) == s,
        event_step(s, Msg::Done) == (AppView { loading: false, ..s }),
{
}

/// Law: a tick advances the spinner by one (wrapping at 256) when its
/// interval has passed, and starts a fetch exactly when none runs and the
/// poll interval has passed; nothing else changes.
pub proof fn lemma_tick<P>(s: AppView<P>, spin_due: bool, poll_due: bool)
    ensures
        ({
            let t = tick_step(s, spin_due, poll_due);
            let spin = if spin_due {
                if s.spin == 255 {
                    0u8
                } else {
                    (s.spin + 1) as u8
                }
            } else {
                s.spin
            };
            &&& !s.loading && poll_due ==> t == (AppView {
                spin,
                loading: true,
                rows: Seq::new(s.accounts.len(), |i: int| RowView::<P>::Loading),
                ..s
            })
            &&& !(!s.loading && poll_due) ==> t == (AppView { spin, ..s })
        }),
{
}

/// Law: accounts read back from the store replace the list and start a
/// fetch of them; nothing else changes.
pub proof fn lemma_reload<P>(s: AppView<P>, accounts: Seq<AccountView>)
    ensures
        fetching(AppView { accounts, ..s }) == (AppView {
            accounts,
            loading: true,
            rows: Seq::new(accounts.len(), |i: int| RowView::<P>::Loading),
            ..s
        }),
{
}

/// Law: Enter in the form (six inputs) submits the trimmed values: a client
/// id that does not parse as an `i64` is reported first; then an empty
/// value; otherwise the form closes, the message names the new account, and
/// the account with the trimmed values and the parsed id is to be stored.
pub proof fn lemma_form_enter<P>(s: AppView<P>, ctrl: bool)
    requires
        s.form matches Some(f) && f.fields.len() == 6,
    ensures
        ({
            let f = s.form->0;
            let v = |i: int| trimmed(f.fields[i].value);
            let k = KeyPress { code: KeyCode::Enter, ctrl };
            let empty = exists|i: int| 0 <= i < 6 && #[trigger] trimmed(f.fields[i].value).len() == 0;
            &&& parsed_i64(v(1)) is None ==> key_step(s, k).0 == (AppView {
                form: Some(FormView { error: Some("Client ID must be a number"@), ..f }),
                ..s
            }) && key_step(s, k).1 == EffectView::Nothing
            &&& parsed_i64(v(1)) is Some && empty ==> key_step(s, k).0 == (AppView {
                form: Some(FormView { error: Some("All fields are required"@), ..f }),
                ..s
            }) && key_step(s, k).1 == EffectView::Nothing
            &&& parsed_i64(v(1)) is Some && !empty ==> key_step(s, k).0 == (AppView {
                form: None,
                message: "Added "@ + v(0),
                ..s
            }) && key_step(s, k).1 == EffectView::Add(
                NewAccountView {
                    name: v(0),
                    client_id: parsed_i64(v(1))->0,
                    username: v(2),
                    password: v(3),
                    demat: v(4),
                    client_code: v(5),
                },
            )
        }),
{
    let f = s.form->0;
    let vals = crate::app::trimmed_values(f);
    assert forall|i: int| 0 <= i < 6 implies vals[i] == trimmed(f.fields[i].value) by {}
    if exists|i: int| 0 <= i < 6 && #[trigger] trimmed(f.fields[i].value).len() == 0 {
        let i = choose|i: int| 0 <= i < 6 && #[trigger] trimmed(f.fields[i].value).len() == 0;
        assert(vals[i].len() == 0);
    }
}

} // verus!
