//! Properties that hold across the screen's transitions.

use vstd::prelude::*;
use crate::account::AccountView;
use crate::app::{
    AppView, EffectView, KeyCode, KeyPress, Msg, RowView, Tab, fetching, initial, key_ok,
    key_step, event_step, tick_step, moved, page_len, with_form, trimmed_values, outcome_row,
    set_focused,
};
use crate::form::{FormView, blank_form, submission};
use crate::text::grouped;

verus! {

/// The screen is consistent: one row per account, page lengths and
/// selections fit in `i32`, a non-empty accounts list has its selection on
/// it, an open form has its six inputs with the focus on one, and a pending
/// deletion names a listed account.
pub open spec fn wf<P>(s: AppView<P>) -> bool {
    &&& s.rows.len() == s.accounts.len()
    &&& s.accounts.len() <= i32::MAX
    &&& s.selected < i32::MAX
    &&& s.accounts_selected < i32::MAX
    &&& (s.accounts.len() > 0 ==> s.accounts_selected < s.accounts.len())
    &&& (s.form matches Some(f) ==> f.fields.len() == 6 && f.focus < 6)
    &&& (s.confirm_delete matches Some(i) ==> i < s.accounts.len())
}

/// Law: at start-up the screen is consistent, for any list of accounts whose
/// length fits in `i32`.
pub proof fn lemma_initial_wf<P>(accounts: Seq<AccountView>)
    requires
        accounts.len() <= i32::MAX,
    ensures
        wf(initial::<P>(accounts)),
{
}

/// Law: a consistent screen takes every key; no key press can fail there.
pub proof fn lemma_wf_accepts_every_key<P>(s: AppView<P>, k: KeyPress)
    requires
        wf(s),
    ensures
        key_ok(s, k),
{
}

/// Law: every key press keeps the screen consistent.
pub proof fn lemma_key_step_keeps_wf<P>(s: AppView<P>, k: KeyPress)
    requires
        wf(s),
    ensures
        wf(key_step(s, k).0),
{
    let len = page_len(s);
    if len > 0 {
        assert((len as i32) == len);
    }
}

/// Law: clock ticks keep the screen consistent.
pub proof fn lemma_tick_keeps_wf<P>(s: AppView<P>, spin_due: bool, poll_due: bool)
    requires
        wf(s),
    ensures
        wf(tick_step(s, spin_due, poll_due)),
{
}

/// Law: fetch reports keep the screen consistent.
pub proof fn lemma_event_keeps_wf<P>(s: AppView<P>, msg: Msg<P>)
    requires
        wf(s),
    ensures
        wf(event_step(s, msg)),
{
}

/// Law: starting a fetch keeps the screen consistent.
pub proof fn lemma_fetching_keeps_wf<P>(s: AppView<P>)
    requires
        wf(s),
    ensures
        wf(fetching(s)),
{
}

/// Law: accounts read back from the store keep the screen consistent when
/// the list's length fits in `i32` and still holds the selected account and
/// the one awaiting deletion.
pub proof fn lemma_reload_keeps_wf<P>(s: AppView<P>, accounts: Seq<AccountView>)
    requires
        wf(s),
        accounts.len() <= i32::MAX,
        accounts.len() > 0 ==> s.accounts_selected < accounts.len(),
        s.confirm_delete matches Some(i) ==> i < accounts.len(),
    ensures
        wf(fetching(AppView { accounts, ..s })),
{
}

/// The screen with nothing open over the page.
pub open spec fn plain<P>(s: AppView<P>) -> bool {
    s.form is None && s.confirm_delete is None && s.detail is None
}

pub open spec fn key(c: KeyCode) -> KeyPress {
    KeyPress { code: c, ctrl: false }
}

/// Law: pressing `s` twice on a page shows amounts as before.
pub proof fn lemma_hide_twice<P>(s: AppView<P>)
    requires
        plain(s),
    ensures
        key_step(key_step(s, key(KeyCode::Char('s'))).0, key(KeyCode::Char('s'))).0 == s,
{
    assert(key_step(key_step(s, key(KeyCode::Char('s'))).0, key(KeyCode::Char('s'))).0 =~= s);
}

/// Law: pressing Tab twice on a page returns to it.
pub proof fn lemma_tab_twice<P>(s: AppView<P>)
    requires
        plain(s),
    ensures
        key_step(key_step(s, key(KeyCode::Tab)).0, key(KeyCode::Tab)).0 == s,
{
    assert(key_step(key_step(s, key(KeyCode::Tab)).0, key(KeyCode::Tab)).0 =~= s);
}

/// Law: on a consistent screen a move stays on the page: the selection is
/// a position of the page after any move there.
pub proof fn lemma_move_stays_on_page<P>(s: AppView<P>, delta: int)
    requires
        wf(s),
        delta == 1 || delta == -1,
        page_len(s) > 0,
    ensures
        s.tab == Tab::Dashboard ==> moved(s, delta).selected < s.rows.len(),
        s.tab == Tab::Accounts ==> moved(s, delta).accounts_selected < s.accounts.len(),
{
    let len = page_len(s);
    assert((len as i32) == len);
}

/// Law: a move down and then up returns to the same selection, away from
/// the page's last position.
pub proof fn lemma_down_then_up<P>(s: AppView<P>)
    requires
        wf(s),
        plain(s),
        s.tab == Tab::Dashboard ==> s.selected + 1 < s.rows.len(),
        s.tab == Tab::Accounts ==> s.accounts_selected + 1 < s.accounts.len(),
    ensures
        key_step(key_step(s, key(KeyCode::Down)).0, key(KeyCode::Up)).0 == s,
{
    let len = page_len(s);
    assert((len as i32) == len);
    let s1 = key_step(s, key(KeyCode::Down)).0;
    assert(page_len(s1) == len);
    assert(key_step(s1, key(KeyCode::Up)).0 =~= s);
}

/// Law: in the form, typing a character and then Backspace leaves the form
/// as it was.
pub proof fn lemma_type_then_backspace<P>(s: AppView<P>, c: char)
    requires
        s.form matches Some(f) && f.focus < f.fields.len(),
    ensures
        key_step(key_step(s, key(KeyCode::Char(c))).0, key(KeyCode::Backspace)).0 == s,
{
    let f = s.form->0;
    let s1 = key_step(s, key(KeyCode::Char(c))).0;
    let f1 = s1.form->0;
    assert(f1.fields[f.focus as int].value.drop_last() =~= f.fields[f.focus as int].value);
    assert(f1.fields.update(f.focus as int, f.fields[f.focus as int]) =~= f.fields);
    assert(key_step(s1, key(KeyCode::Backspace)).0 =~= s);
}

/// The screen after Tab was pressed `n` times.
pub open spec fn tabs<P>(s: AppView<P>, n: nat) -> AppView<P>
    decreases n,
{
    if n == 0 {
        s
    } else {
        key_step(tabs(s, (n - 1) as nat), key(KeyCode::Tab)).0
    }
}

proof fn lemma_tabs_focus<P>(s: AppView<P>, n: nat)
    requires
        s.form matches Some(f) && 0 < f.fields.len() <= usize::MAX && f.focus < f.fields.len(),
    ensures
        tabs(s, n) == with_form(
            s,
            FormView { focus: ((s.form->0.focus + n) % (s.form->0.fields.len() as int)) as usize, ..s.form->0 },
        ),
    decreases n,
{
    let f = s.form->0;
    let len = f.fields.len() as int;
    if n == 0 {
        assert(((f.focus + 0) % len) == f.focus) by (nonlinear_arith)
            requires
                0 <= f.focus < len,
        ;
        assert(with_form(s, FormView { focus: f.focus, ..f }) =~= s);
    } else {
        lemma_tabs_focus(s, (n - 1) as nat);
        let a = (f.focus + (n - 1)) % len;
        assert(0 <= a < len) by (nonlinear_arith)
            requires
                len > 0,
                a == (f.focus + (n - 1)) % len,
        ;
        if len == 1 {
            assert((a + 1) % 1 == 0);
            assert((f.focus + n) % 1 == 0);
        } else {
            vstd::arithmetic::div_mod::lemma_add_mod_noop(f.focus + (n - 1), 1, len);
            vstd::arithmetic::div_mod::lemma_small_mod(1, len as nat);
            assert((a + 1) % len == (f.focus + n) % len);
        }
        let s0 = tabs(s, (n - 1) as nat);
        let f0 = FormView { focus: a as usize, ..f };
        assert(s0 == with_form(s, f0));
        assert(s0.form == Some(f0));
        assert(key_step(s0, key(KeyCode::Tab)).0 == with_form(
            s0,
            FormView { focus: ((f0.focus + 1) % len) as usize, ..f0 },
        ));
        assert(tabs(s, n) =~= with_form(
            s,
            FormView { focus: ((f.focus + n) % len) as usize, ..f },
        ));
    }
}

/// Law: in the form, Tab pressed as often as there are inputs brings the
/// screen back to where it was.
pub proof fn lemma_tab_cycles_form<P>(s: AppView<P>)
    requires
        s.form matches Some(f) && 0 < f.fields.len() <= usize::MAX && f.focus < f.fields.len(),
    ensures
        tabs(s, s.form->0.fields.len()) == s,
{
    let f = s.form->0;
    let len = f.fields.len() as int;
    lemma_tabs_focus(s, f.fields.len());
    assert((f.focus + len) % len == f.focus) by {
        vstd::arithmetic::div_mod::lemma_mod_add_multiples_vanish(f.focus as int, len);
        vstd::arithmetic::div_mod::lemma_small_mod(f.focus as nat, len as nat);
    }
    assert(with_form(s, FormView { focus: f.focus, ..f }) =~= s);
}

/// Law: a submitted form yields an account only when every trimmed value is
/// non-empty, and the client id is then the parsed second value.
pub proof fn lemma_submission_needs_every_value(vals: Seq<Seq<char>>)
    requires
        vals.len() >= 6,
        submission(vals) is Ok,
    ensures
        forall|i: int| 0 <= i < vals.len() ==> #[trigger] vals[i].len() > 0,
        crate::text::parsed_i64(vals[1]) == Some(submission(vals)->Ok_0.client_id),
{
}

/// Law: a confirmed deletion asks the store to delete exactly the confirmed
/// account, removes just that one from the list, and refetches every row.
pub proof fn lemma_confirmed_delete<P>(s: AppView<P>, i: usize)
    requires
        s.form is None,
        s.confirm_delete == Some(i),
        i < s.accounts.len(),
    ensures
        key_step(s, key(KeyCode::Char('y'))).1 == EffectView::Delete(s.accounts[i as int].id),
        key_step(s, key(KeyCode::Char('y'))).0.accounts == s.accounts.remove(i as int),
        key_step(s, key(KeyCode::Char('y'))).0.confirm_delete is None,
        key_step(s, key(KeyCode::Char('y'))).0.loading,
        forall|j: int|
            0 <= j < s.accounts.len() - 1 ==> #[trigger] key_step(
                s,
                key(KeyCode::Char('y')),
            ).0.rows[j] == RowView::<P>::Loading,
{
}

/// Law: Esc in the form closes it and changes nothing else.
pub proof fn lemma_form_esc<P>(s: AppView<P>, ctrl: bool)
    requires
        s.form is Some,
    ensures
        key_step(s, (KeyPress { code: KeyCode::Esc, ctrl })).0 == (AppView { form: None, ..s }),
        key_step(s, (KeyPress { code: KeyCode::Esc, ctrl })).1 == EffectView::Nothing,
{
}

/// Law: the account asked to be stored is the form's values, trimmed.
pub proof fn lemma_added_account_is_trimmed_form<P>(s: AppView<P>)
    requires
        s.form matches Some(f) && f.fields.len() == 6,
        (key_step(s, key(KeyCode::Enter)).1 is Add),
    ensures
        ({
            let vals = trimmed_values(s.form->0);
            let a = key_step(s, key(KeyCode::Enter)).1->Add_0;
            &&& a.name == vals[0]
            &&& a.username == vals[2]
            &&& a.password == vals[3]
            &&& a.demat == vals[4]
            &&& a.client_code == vals[5]
            &&& crate::text::parsed_i64(vals[1]) == Some(a.client_id)
            &&& key_step(s, key(KeyCode::Enter)).0.form is None
        }),
{
}

/// Law: a fetch report changes at most the row it names, and nothing but
/// the rows and the loading flag.
pub proof fn lemma_event_touches_one_row<P>(s: AppView<P>, msg: Msg<P>)
    ensures
        event_step(s, msg).rows.len() == s.rows.len(),
        event_step(s, msg).accounts == s.accounts,
        event_step(s, msg).form == s.form,
        event_step(s, msg).selected == s.selected,
        msg matches Msg::Account(i, _) ==> forall|j: int|
            0 <= j < s.rows.len() && j != i ==> #[trigger] event_step(s, msg).rows[j] == s.rows[j],
{
}

/// Law: after a fetch starts there is one row per account, each loading.
pub proof fn lemma_fetching_rows<P>(s: AppView<P>)
    ensures
        fetching(s).rows.len() == s.accounts.len(),
        forall|j: int| 0 <= j < s.accounts.len() ==> #[trigger] fetching(s).rows[j] == RowView::<P>::Loading,
        fetching(s).loading,
{
}

/// At most one thing is open over the page: the holdings view only over the
/// dashboard, the form or a pending deletion only over the accounts page.
pub open spec fn overlay_ok<P>(s: AppView<P>) -> bool {
    &&& (s.form is Some) as int + (s.confirm_delete is Some) as int + (s.detail is Some) as int <= 1
    &&& s.detail is Some ==> s.tab == Tab::Dashboard
    &&& (s.form is Some || s.confirm_delete is Some) ==> s.tab == Tab::Accounts
}

/// Law: at start-up nothing is open over the page.
pub proof fn lemma_initial_overlay_ok<P>(accounts: Seq<AccountView>)
    ensures
        overlay_ok(initial::<P>(accounts)),
{
}

/// Law: whatever key is pressed, something opens only when nothing is open,
/// and the page does not change while something is open.
pub proof fn lemma_key_step_keeps_overlay<P>(s: AppView<P>, k: KeyPress)
    requires
        overlay_ok(s),
    ensures
        overlay_ok(key_step(s, k).0),
{
}

/// Law: ticks, fetch reports and reloaded accounts open and close nothing.
pub proof fn lemma_outside_keeps_overlay<P>(
    s: AppView<P>,
    spin_due: bool,
    poll_due: bool,
    msg: Msg<P>,
    accounts: Seq<AccountView>,
)
    requires
        overlay_ok(s),
    ensures
        overlay_ok(tick_step(s, spin_due, poll_due)),
        overlay_ok(event_step(s, msg)),
        overlay_ok(fetching(AppView { accounts, ..s })),
{
}

/// Law: in the form, Tab and Down move the focus to the next input and Up to
/// the previous one, cyclically; nothing else changes, the focus stays on an
/// input, and Down followed by Up returns to where it was.
pub proof fn lemma_form_focus<P>(s: AppView<P>, ctrl: bool)
    requires
        s.form matches Some(f) && 0 < f.fields.len() <= usize::MAX && f.focus < f.fields.len(),
    ensures
        ({
            let f = s.form->0;
            let n = f.fields.len() as int;
            let next = with_form(s, FormView { focus: ((f.focus + 1) % n) as usize, ..f });
            let prev = with_form(s, FormView { focus: ((f.focus + n - 1) % n) as usize, ..f });
            &&& key_step(s, KeyPress { code: KeyCode::Tab, ctrl }).0 == next
            &&& key_step(s, KeyPress { code: KeyCode::Down, ctrl }).0 == next
            &&& key_step(s, KeyPress { code: KeyCode::Up, ctrl }).0 == prev
            &&& (f.focus + 1) % n < n
            &&& (f.focus + n - 1) % n < n
            &&& key_step(next, KeyPress { code: KeyCode::Up, ctrl }).0 == s
        }),
{
    let f = s.form->0;
    let n = f.fields.len() as int;
    assert(0 <= (f.focus + 1) % n < n) by (nonlinear_arith)
        requires
            n > 0,
    ;
    assert(0 <= (f.focus + n - 1) % n < n) by (nonlinear_arith)
        requires
            n > 0,
    ;
    if f.focus == 0 {
        assert((f.focus + n - 1) % n == n - 1) by {
            vstd::arithmetic::div_mod::lemma_small_mod((n - 1) as nat, n as nat);
        }
    } else {
        assert((f.focus + n - 1) % n == f.focus - 1) by {
            vstd::arithmetic::div_mod::lemma_mod_add_multiples_vanish(f.focus - 1, n);
            vstd::arithmetic::div_mod::lemma_small_mod((f.focus - 1) as nat, n as nat);
        }
    }
    let m = (f.focus + 1) % n;
    if f.focus + 1 < n {
        assert(m == f.focus + 1) by {
            vstd::arithmetic::div_mod::lemma_small_mod((f.focus + 1) as nat, n as nat);
        }
    } else {
        assert(m == 0) by {
            vstd::arithmetic::div_mod::lemma_mod_self_0(n);
        }
    }
    let next = with_form(s, FormView { focus: m as usize, ..f });
    assert(key_step(next, KeyPress { code: KeyCode::Up, ctrl }).0 =~= s);
}

/// Law: in the form, a character typed without Control goes at the end of
/// the focused input and nothing else changes; with Control it changes
/// nothing; Backspace on an empty input changes nothing.
pub proof fn lemma_form_typing<P>(s: AppView<P>, c: char)
    requires
        s.form matches Some(f) && f.focus < f.fields.len(),
    ensures
        ({
            let f = s.form->0;
            let v = f.fields[f.focus as int].value;
            &&& key_step(s, key(KeyCode::Char(c))).0 == with_form(s, set_focused(f, v.push(c)))
            &&& key_step(s, key(KeyCode::Char(c))).1 == EffectView::Nothing
            &&& key_step(s, KeyPress { code: KeyCode::Char(c), ctrl: true }).0 == s
            &&& v.len() == 0 ==> key_step(s, key(KeyCode::Backspace)).0 == s
        }),
{
    let f = s.form->0;
    let v = f.fields[f.focus as int].value;
    if v.len() == 0 {
        assert(f.fields.update(f.focus as int, f.fields[f.focus as int]) =~= f.fields);
        assert(key_step(s, key(KeyCode::Backspace)).0 =~= s);
    }
}

/// The screen after the fetch reports `msgs`, in order.
pub open spec fn after_reports<P>(s: AppView<P>, msgs: Seq<Msg<P>>) -> AppView<P>
    decreases msgs.len(),
{
    if msgs.len() == 0 {
        s
    } else {
        event_step(after_reports(s, msgs.drop_last()), msgs.last())
    }
}

/// The reports of a whole fetch: each account's outcome, in row order, then
/// the end.
pub open spec fn fetch_reports<P>(results: Seq<Result<P, String>>) -> Seq<Msg<P>> {
    Seq::new(results.len(), |i: int| Msg::Account(i as usize, results[i])).push(Msg::Done)
}

proof fn lemma_reports_prefix<P>(s: AppView<P>, results: Seq<Result<P, String>>, k: nat)
    requires
        results.len() == s.accounts.len(),
        results.len() <= usize::MAX,
        k <= results.len(),
    ensures
        ({
            let t = after_reports(
                fetching(s),
                Seq::new(k, |i: int| Msg::Account(i as usize, results[i])),
            );
            &&& t.rows.len() == results.len()
            &&& forall|j: int| 0 <= j < k ==> #[trigger] t.rows[j] == outcome_row(results[j])
            &&& forall|j: int| k <= j < results.len() ==> #[trigger] t.rows[j] == RowView::<P>::Loading
            &&& t == AppView { rows: t.rows, ..fetching(s) }
        }),
    decreases k,
{
    let msgs = Seq::new(k, |i: int| Msg::Account(i as usize, results[i]));
    if k == 0 {
        assert(after_reports(fetching(s), msgs) == fetching(s));
    } else {
        let prev = Seq::new((k - 1) as nat, |i: int| Msg::Account(i as usize, results[i]));
        assert(msgs.drop_last() =~= prev);
        lemma_reports_prefix(s, results, (k - 1) as nat);
        let t0 = after_reports(fetching(s), prev);
        let t = after_reports(fetching(s), msgs);
        assert(t == event_step(t0, msgs.last()));
        assert(msgs.last() == Msg::Account(((k - 1) as int) as usize, results[k - 1]));
        assert forall|j: int| 0 <= j < k implies #[trigger] t.rows[j] == outcome_row(results[j]) by {
            if j < k - 1 {
                assert(t.rows[j] == t0.rows[j]);
            }
        }
        assert forall|j: int| k <= j < results.len() implies #[trigger] t.rows[j]
            == RowView::<P>::Loading by {
            assert(t.rows[j] == t0.rows[j]);
        }
        assert(t =~= AppView { rows: t.rows, ..fetching(s) });
    }
}

/// Law: a fetch that reports every account's outcome in row order and then
/// its end leaves each row holding its account's outcome and the loading
/// flag cleared; nothing else changes from when the fetch started.
pub proof fn lemma_fetch_fills_rows<P>(s: AppView<P>, results: Seq<Result<P, String>>)
    requires
        results.len() == s.accounts.len(),
        results.len() <= usize::MAX,
    ensures
        ({
            let t = after_reports(fetching(s), fetch_reports(results));
            &&& t.rows == results.map_values(|r: Result<P, String>| outcome_row(r))
            &&& !t.loading
            &&& t == AppView { rows: t.rows, loading: false, ..s }
        }),
{
    let n = results.len();
    let accs = Seq::new(n, |i: int| Msg::Account(i as usize, results[i]));
    lemma_reports_prefix(s, results, n);
    let msgs = fetch_reports(results);
    assert(msgs.drop_last() =~= accs);
    let t0 = after_reports(fetching(s), accs);
    let t = after_reports(fetching(s), msgs);
    assert(t == event_step(t0, Msg::Done));
    assert(t.rows =~= results.map_values(|r: Result<P, String>| outcome_row(r)));
    assert(t =~= AppView { rows: t.rows, loading: false, ..s });
}

/// Law: Enter on the blank form keeps it open and complains about the client
/// id first.
pub proof fn lemma_blank_form_enter<P>(s: AppView<P>)
    requires
        s.form == Some(blank_form()),
    ensures
        key_step(s, key(KeyCode::Enter)).0 == with_form(
            s,
            FormView { error: Some("Client ID must be a number"@), ..blank_form() },
        ),
        key_step(s, key(KeyCode::Enter)).1 == EffectView::Nothing,
{
    let f = blank_form();
    assert(trimmed_values(f)[1] == crate::text::trimmed(Seq::<char>::empty()));
    assert(crate::text::trim_start(Seq::<char>::empty()) == Seq::<char>::empty());
    assert(crate::text::trim_end(Seq::<char>::empty()) == Seq::<char>::empty());
}

/// Without its commas.
pub open spec fn drop_commas(s: Seq<char>) -> Seq<char>
    decreases s.len(),
{
    if s.len() == 0 {
        s
    } else if s.last() == ',' {
        drop_commas(s.drop_last())
    } else {
        drop_commas(s.drop_last()).push(s.last())
    }
}

proof fn lemma_drop_commas_concat(a: Seq<char>, b: Seq<char>)
    ensures
        drop_commas(a + b) == drop_commas(a) + drop_commas(b),
    decreases b.len(),
{
    if b.len() == 0 {
        assert(a + b =~= a);
        assert(drop_commas(a) + drop_commas(b) =~= drop_commas(a));
    } else {
        lemma_drop_commas_concat(a, b.drop_last());
        assert((a + b).drop_last() =~= a + b.drop_last());
        if b.last() != ',' {
            assert(drop_commas(a) + drop_commas(b.drop_last()).push(b.last()) =~= (drop_commas(a)
                + drop_commas(b.drop_last())).push(b.last()));
        }
    }
}

proof fn lemma_drop_commas_plain(d: Seq<char>)
    requires
        !d.contains(','),
    ensures
        drop_commas(d) == d,
    decreases d.len(),
{
    if d.len() > 0 {
        assert(!d.drop_last().contains(',')) by {
            if d.drop_last().contains(',') {
                let k = choose|k: int| 0 <= k < d.drop_last().len() && d.drop_last()[k] == ',';
                assert(d[k] == ',');
            }
        }
        assert(d[d.len() - 1] != ',');
        lemma_drop_commas_plain(d.drop_last());
        assert(d.drop_last().push(d.last()) =~= d);
    }
}

/// Law: the thousands separators are all that grouping adds: without its
/// commas a grouped number is the number.
pub proof fn lemma_grouped_drop_commas(d: Seq<char>)
    requires
        !d.contains(','),
    ensures
        drop_commas(grouped(d)) == d,
    decreases d.len(),
{
    if d.len() <= 3 {
        lemma_drop_commas_plain(d);
    } else {
        let head = d.take(d.len() - 3);
        let tail = d.skip(d.len() - 3);
        assert(!head.contains(',')) by {
            if head.contains(',') {
                let k = choose|k: int| 0 <= k < head.len() && head[k] == ',';
                assert(d[k] == ',');
            }
        }
        assert(!tail.contains(',')) by {
            if tail.contains(',') {
                let k = choose|k: int| 0 <= k < tail.len() && tail[k] == ',';
                assert(d[d.len() - 3 + k] == ',');
            }
        }
        lemma_grouped_drop_commas(head);
        lemma_drop_commas_plain(tail);
        lemma_drop_commas_concat(grouped(head) + seq![','], tail);
        lemma_drop_commas_concat(grouped(head), seq![',']);
        assert(drop_commas(seq![',']) =~= Seq::<char>::empty()) by {
            assert(seq![','].drop_last() =~= Seq::<char>::empty());
            reveal_with_fuel(drop_commas, 2);
        }
        assert(head + tail =~= d);
    }
}

} // verus!
