//! The dashboard's state machine. The screen state changes only here; what
//! the outside has to do (fetch portfolios, store or delete an account) comes
//! back as an `Effect`, and what the outside reports (a fetched portfolio,
//! the end of a fetch, the stored accounts, the passing of time) goes in as
//! a call. The state is generic over the portfolio summary `P` of a row.

use vstd::prelude::*;
use vstd::string::*;
use crate::account::{Account, AccountView, NewAccount, NewAccountView, account_views};
use crate::form::{
    FormState, FormField, FormView, FieldView, blank_form, new_account_form, submission,
    string_views, form_outcome,
};
use crate::text::{push_char, pop_char, trim_owned, trimmed};

verus! {

/// The two pages of the dashboard.
#[derive(Debug, Clone, Copy, PartialEq, Eq, Structural)]
pub enum Tab {
    Dashboard,
    Accounts,
}

/// The state of one account's row: its portfolio is being fetched, was
/// fetched, or the fetch failed with a message.
#[derive(Debug, Clone)]
pub enum RowState<P> {
    Loading,
    Loaded(P),
    Failed(String),
}

#[verifier::ext_equal]
pub enum RowView<P> {
    Loading,
    Loaded(P),
    Failed(Seq<char>),
}

impl<P> View for RowState<P> {
    type V = RowView<P>;

    open spec fn view(&self) -> RowView<P> {
        match self {
            RowState::Loading => RowView::Loading,
            RowState::Loaded(p) => RowView::Loaded(*p),
            RowState::Failed(e) => RowView::Failed(e@),
        }
    }
}

/// The keys the screen tells apart; `Other` stands for every other key.
#[derive(Debug, Clone, Copy, PartialEq, Eq, Structural)]
pub enum KeyCode {
    Char(char),
    Enter,
    Esc,
    Tab,
    Up,
    Down,
    Backspace,
    Other,
}

/// A key press, and whether Control was held.
#[derive(Debug, Clone, Copy, PartialEq, Eq, Structural)]
pub struct KeyPress {
    pub code: KeyCode,
    pub ctrl: bool,
}

/// What the caller has to do after a transition: nothing; start fetching
/// every account's portfolio (the rows were already reset); delete the
/// stored account with this id, then fetch; or store this account, then
/// hand the stored accounts back with `accounts_reloaded`.
#[derive(Debug, Clone, PartialEq, Eq)]
pub enum Effect {
    Nothing,
    Fetch,
    Delete(i64),
    Add(NewAccount),
}

pub enum EffectView {
    Nothing,
    Fetch,
    Delete(i64),
    Add(NewAccountView),
}

impl View for Effect {
    type V = EffectView;

    open spec fn view(&self) -> EffectView {
        match self {
            Effect::Nothing => EffectView::Nothing,
            Effect::Fetch => EffectView::Fetch,
            Effect::Delete(id) => EffectView::Delete(*id),
            Effect::Add(a) => EffectView::Add(a@),
        }
    }
}

/// A report from a portfolio fetch: the outcome for the account at a row,
/// or the end of the fetch.
#[derive(Debug)]
pub enum Msg<P> {
    Account(usize, Result<P, String>),
    Done,
}

/// The screen.
pub struct App<P> {
    pub accounts: Vec<Account>,
    pub tab: Tab,
    pub rows: Vec<RowState<P>>,
    pub selected: usize,
    pub accounts_selected: usize,
    pub detail: Option<usize>,
    pub loading: bool,
    pub should_quit: bool,
    pub message: String,
    pub spin: u8,
    pub form: Option<FormState>,
    pub confirm_delete: Option<usize>,
    pub hide_amounts: bool,
}

#[verifier::ext_equal]
pub struct AppView<P> {
    pub accounts: Seq<AccountView>,
    pub tab: Tab,
    pub rows: Seq<RowView<P>>,
    pub selected: usize,
    pub accounts_selected: usize,
    pub detail: Option<usize>,
    pub loading: bool,
    pub should_quit: bool,
    pub message: Seq<char>,
    pub spin: u8,
    pub form: Option<FormView>,
    pub confirm_delete: Option<usize>,
    pub hide_amounts: bool,
}

pub open spec fn row_views<P>(v: Seq<RowState<P>>) -> Seq<RowView<P>> {
    v.map_values(|r: RowState<P>| r@)
}

pub open spec fn form_view(f: Option<FormState>) -> Option<FormView> {
    match f {
        Some(x) => Some(x@),
        None => None,
    }
}

impl<P> View for App<P> {
    type V = AppView<P>;

    open spec fn view(&self) -> AppView<P> {
        AppView {
            accounts: account_views(self.accounts@),
            tab: self.tab,
            rows: row_views(self.rows@),
            selected: self.selected,
            accounts_selected: self.accounts_selected,
            detail: self.detail,
            loading: self.loading,
            should_quit: self.should_quit,
            message: self.message@,
            spin: self.spin,
            form: form_view(self.form),
            confirm_delete: self.confirm_delete,
            hide_amounts: self.hide_amounts,
        }
    }
}

// ---------------------------------------------------------------------------
// The transitions, stated over the view
// ---------------------------------------------------------------------------

/// Every row loading, one per account: what a fetch starts from.
pub open spec fn loading_rows<P>(n: nat) -> Seq<RowView<P>> {
    Seq::new(n, |i: int| RowView::<P>::Loading)
}

/// A fetch has started.
pub open spec fn fetching<P>(s: AppView<P>) -> AppView<P> {
    AppView { loading: true, rows: loading_rows(s.accounts.len()), ..s }
}

/// The screen for these stored accounts at start-up: the dashboard, every
/// row loading, nothing selected but the first row, nothing open.
pub open spec fn initial<P>(accounts: Seq<AccountView>) -> AppView<P> {
    AppView {
        accounts,
        tab: Tab::Dashboard,
        rows: loading_rows(accounts.len()),
        selected: 0,
        accounts_selected: 0,
        detail: None,
        loading: true,
        should_quit: false,
        message: Seq::empty(),
        spin: 0,
        form: None,
        confirm_delete: None,
        hide_amounts: false,
    }
}

pub open spec fn is_char(k: KeyPress, c: char) -> bool {
    k.code == KeyCode::Char(c)
}

pub open spec fn quit<P>(s: AppView<P>) -> AppView<P> {
    AppView { should_quit: true, ..s }
}

pub open spec fn toggle_hide<P>(s: AppView<P>) -> AppView<P> {
    AppView { hide_amounts: !s.hide_amounts, ..s }
}

pub open spec fn with_form<P>(s: AppView<P>, f: FormView) -> AppView<P> {
    AppView { form: Some(f), ..s }
}

/// The number of rows on the current page, and the selection there.
pub open spec fn page_len<P>(s: AppView<P>) -> nat {
    if s.tab == Tab::Dashboard {
        s.rows.len()
    } else {
        s.accounts.len()
    }
}

pub open spec fn page_selected<P>(s: AppView<P>) -> usize {
    if s.tab == Tab::Dashboard {
        s.selected
    } else {
        s.accounts_selected
    }
}

/// `v` clamped into `[lo, hi]`.
pub open spec fn clamp(v: int, lo: int, hi: int) -> int {
    if v < lo {
        lo
    } else if v > hi {
        hi
    } else {
        v
    }
}

/// The selection on the current page moved by `delta`, kept within the
/// page (computed in `i32`, as the selection is shown); no move on an empty
/// page.
pub open spec fn moved<P>(s: AppView<P>, delta: int) -> AppView<P> {
    let len = page_len(s);
    if len == 0 {
        s
    } else {
        let next = clamp((page_selected(s) as i32) + delta, 0, (len as i32) - 1) as usize;
        if s.tab == Tab::Dashboard {
            AppView { selected: next, ..s }
        } else {
            AppView { accounts_selected: next, ..s }
        }
    }
}

/// The move can be computed in `i32`: the page length is a positive `i32`
/// and the moved selection does not overflow.
pub open spec fn move_ok<P>(s: AppView<P>, delta: int) -> bool {
    let len = page_len(s);
    len == 0 || ((len as i32) >= 1 && i32::MIN <= (page_selected(s) as i32) + delta <= i32::MAX)
}

/// The focused input's value replaced.
pub open spec fn set_focused(f: FormView, v: Seq<char>) -> FormView {
    FormView {
        fields: f.fields.update(f.focus as int, FieldView { value: v, ..f.fields[f.focus as int] }),
        ..f
    }
}

/// The values of the form's inputs as submitted: trimmed.
pub open spec fn trimmed_values(f: FormView) -> Seq<Seq<char>> {
    f.fields.map_values(|x: FieldView| trimmed(x.value))
}

/// Enter in the form: a valid submission closes the form, says what was
/// added and asks for it to be stored; otherwise the form stays open with
/// the complaint.
pub open spec fn submit_step<P>(s: AppView<P>, f: FormView) -> (AppView<P>, EffectView) {
    match submission(trimmed_values(f)) {
        Ok(a) => (AppView { message: "Added "@ + a.name, form: None, ..s }, EffectView::Add(a)),
        Err(e) => (with_form(s, FormView { error: Some(e), ..f }), EffectView::Nothing),
    }
}

/// A key while the form is open.
pub open spec fn form_step<P>(s: AppView<P>, f: FormView, k: KeyPress) -> (AppView<P>, EffectView) {
    match k.code {
        KeyCode::Esc => (AppView { form: None, ..s }, EffectView::Nothing),
        KeyCode::Tab | KeyCode::Down => (
            with_form(s, FormView { focus: ((f.focus + 1) % (f.fields.len() as int)) as usize, ..f }),
            EffectView::Nothing,
        ),
        KeyCode::Up => (
            with_form(
                s,
                FormView {
                    focus: if f.focus == 0 {
                        (f.fields.len() - 1) as usize
                    } else {
                        (f.focus - 1) as usize
                    },
                    ..f
                },
            ),
            EffectView::Nothing,
        ),
        KeyCode::Backspace => {
            let v = f.fields[f.focus as int].value;
            (
                with_form(
                    s,
                    set_focused(
                        f,
                        if v.len() == 0 {
                            v
                        } else {
                            v.drop_last()
                        },
                    ),
                ),
                EffectView::Nothing,
            )
        },
        KeyCode::Enter => submit_step(s, f),
        KeyCode::Char(c) => if !k.ctrl {
            (with_form(s, set_focused(f, f.fields[f.focus as int].value.push(c))), EffectView::Nothing)
        } else {
            (s, EffectView::Nothing)
        },
        _ => (s, EffectView::Nothing),
    }
}

/// A key while the deletion of the account at `i` awaits confirmation:
/// `y` removes it, moves the selection back onto the list, says what was
/// deleted, starts a fetch and asks for the stored account to be deleted;
/// `n` or Esc cancels.
pub open spec fn confirm_step<P>(s: AppView<P>, i: usize, k: KeyPress) -> (AppView<P>, EffectView) {
    if is_char(k, 'y') {
        let acc = s.accounts[i as int];
        let rest = s.accounts.remove(i as int);
        let sel = if s.accounts_selected >= rest.len() && rest.len() > 0 {
            (rest.len() - 1) as usize
        } else {
            s.accounts_selected
        };
        (
            fetching(
                AppView {
                    accounts: rest,
                    message: "Deleted "@ + acc.name,
                    accounts_selected: sel,
                    confirm_delete: None,
                    ..s
                },
            ),
            EffectView::Delete(acc.id),
        )
    } else if is_char(k, 'n') || k.code == KeyCode::Esc {
        (AppView { confirm_delete: None, ..s }, EffectView::Nothing)
    } else {
        (s, EffectView::Nothing)
    }
}

/// A key while an account's holdings are shown.
pub open spec fn detail_step<P>(s: AppView<P>, k: KeyPress) -> AppView<P> {
    if k.code == KeyCode::Esc || is_char(k, 'q') || k.code == KeyCode::Enter || is_char(k, 'h') {
        AppView { detail: None, ..s }
    } else if is_char(k, 's') {
        toggle_hide(s)
    } else {
        s
    }
}

/// A key on a page with nothing open over it (Control not held).
pub open spec fn main_step<P>(s: AppView<P>, k: KeyPress) -> (AppView<P>, EffectView) {
    if is_char(k, 'q') {
        (quit(s), EffectView::Nothing)
    } else if is_char(k, 's') {
        (toggle_hide(s), EffectView::Nothing)
    } else if is_char(k, 'r') {
        (fetching(s), EffectView::Fetch)
    } else if k.code == KeyCode::Tab {
        (
            AppView {
                tab: if s.tab == Tab::Dashboard {
                    Tab::Accounts
                } else {
                    Tab::Dashboard
                },
                ..s
            },
            EffectView::Nothing,
        )
    } else if k.code == KeyCode::Down || is_char(k, 'j') {
        (moved(s, 1), EffectView::Nothing)
    } else if k.code == KeyCode::Up || is_char(k, 'k') {
        (moved(s, -1), EffectView::Nothing)
    } else if (k.code == KeyCode::Enter || is_char(k, 'l')) && s.tab == Tab::Dashboard && s.selected
        < s.rows.len() && s.rows[s.selected as int] is Loaded {
        (AppView { detail: Some(s.selected), ..s }, EffectView::Nothing)
    } else if is_char(k, 'a') && s.tab == Tab::Accounts {
        (with_form(s, blank_form()), EffectView::Nothing)
    } else if is_char(k, 'd') && s.tab == Tab::Accounts && s.accounts.len() > 0 {
        (AppView { confirm_delete: Some(s.accounts_selected), ..s }, EffectView::Nothing)
    } else {
        (s, EffectView::Nothing)
    }
}

/// What a key press does: the open form takes every key first, then a
/// pending delete confirmation, then the holdings view; with Control held
/// only `c` and `q` (quit) count; otherwise the page's keys.
pub open spec fn key_step<P>(s: AppView<P>, k: KeyPress) -> (AppView<P>, EffectView) {
    match s.form {
        Some(f) => form_step(s, f, k),
        None => match s.confirm_delete {
            Some(i) => confirm_step(s, i, k),
            None => if s.detail is Some {
                (detail_step(s, k), EffectView::Nothing)
            } else if k.ctrl {
                (
                    if is_char(k, 'c') || is_char(k, 'q') {
                        quit(s)
                    } else {
                        s
                    },
                    EffectView::Nothing,
                )
            } else {
                main_step(s, k)
            },
        },
    }
}

/// The form can take the key without indexing outside its inputs or
/// dividing by zero.
pub open spec fn form_key_ok(f: FormView, k: KeyPress) -> bool {
    match k.code {
        KeyCode::Tab | KeyCode::Down => f.fields.len() > 0 && f.focus < usize::MAX,
        KeyCode::Up => f.focus == 0 ==> f.fields.len() > 0,
        KeyCode::Backspace => f.focus < f.fields.len(),
        KeyCode::Enter => f.fields.len() >= 6,
        KeyCode::Char(_) => !k.ctrl ==> f.focus < f.fields.len(),
        _ => true,
    }
}

/// The screen can take the key: the form's condition, a confirmed delete
/// names a listed account, and a move of the selection fits in `i32`.
pub open spec fn key_ok<P>(s: AppView<P>, k: KeyPress) -> bool {
    match s.form {
        Some(f) => form_key_ok(f, k),
        None => match s.confirm_delete {
            Some(i) => is_char(k, 'y') ==> i < s.accounts.len(),
            None => if s.detail is Some || k.ctrl {
                true
            } else if k.code == KeyCode::Down || is_char(k, 'j') {
                move_ok(s, 1)
            } else if k.code == KeyCode::Up || is_char(k, 'k') {
                move_ok(s, -1)
            } else {
                true
            },
        },
    }
}

/// The spinner's frame for a counter value.
pub open spec fn spinner_frame(i: int) -> char {
    seq!['⠋', '⠙', '⠹', '⠸', '⠼', '⠴', '⠦', '⠧', '⠇', '⠏'][i % 10]
}

/// The row that a fetch report gives.
pub open spec fn outcome_row<P>(r: Result<P, String>) -> RowView<P> {
    match r {
        Ok(p) => RowView::Loaded(p),
        Err(e) => RowView::Failed(e@),
    }
}

/// A fetch report: an outcome fills the row it names, if there is one;
/// the end of the fetch clears the loading flag.
pub open spec fn event_step<P>(s: AppView<P>, msg: Msg<P>) -> AppView<P> {
    match msg {
        Msg::Account(i, r) => if i < s.rows.len() {
            AppView { rows: s.rows.update(i as int, outcome_row(r)), ..s }
        } else {
            s
        },
        Msg::Done => AppView { loading: false, ..s },
    }
}

/// A clock tick: the spinner advances (wrapping) when its interval has
/// passed; a new fetch starts when none runs and the poll interval has
/// passed.
pub open spec fn tick_step<P>(s: AppView<P>, spin_due: bool, poll_due: bool) -> AppView<P> {
    let s1 = if spin_due {
        AppView { spin: ((s.spin + 1) % 256) as u8, ..s }
    } else {
        s
    };
    if !s.loading && poll_due {
        fetching(s1)
    } else {
        s1
    }
}

// ---------------------------------------------------------------------------
// The transitions, computed
// ---------------------------------------------------------------------------

fn loading_row_vec<P>(n: usize) -> (v: Vec<RowState<P>>)
    ensures
        row_views(v@) == loading_rows::<P>(n as nat),
{
    let mut v: Vec<RowState<P>> = Vec::new();
    let mut i: usize = 0;
    while i < n
        invariant
            i <= n,
            v.len() == i,
            forall|k: int| 0 <= k < i ==> #[trigger] v@[k] is Loading,
        decreases n - i,
    {
        v.push(RowState::Loading);
        i = i + 1;
    }
    assert(row_views(v@) =~= loading_rows::<P>(n as nat));
    v
}

fn trimmed_vec(form: &FormState) -> (r: Vec<String>)
    ensures
        r.len() == form.fields.len(),
        string_views(r@) == trimmed_values(form@),
{
    let mut r: Vec<String> = Vec::new();
    let mut i: usize = 0;
    while i < form.fields.len()
        invariant
            i <= form.fields.len(),
            r.len() == i,
            forall|k: int| 0 <= k < i ==> #[trigger] r@[k]@ == trimmed(form.fields@[k].value@),
        decreases form.fields.len() - i,
    {
        r.push(trim_owned(form.fields[i].value.as_str()));
        i = i + 1;
    }
    assert(string_views(r@) =~= trimmed_values(form@));
    r
}

/// Appends `c` to the focused input of the form.
fn push_focused(form: &mut FormState, c: char)
    requires
        old(form).focus < old(form).fields.len(),
    ensures
        final(form)@ == set_focused(old(form)@, old(form)@.fields[old(form).focus as int].value.push(c)),
{
    let i = form.focus;
    let mut f = FormField { label: "", value: String::new(), secret: false };
    form.fields.set_and_swap(i, &mut f);
    push_char(&mut f.value, c);
    form.fields.set_and_swap(i, &mut f);
    assert(form@.fields =~= set_focused(old(form)@, old(form)@.fields[i as int].value.push(c)).fields);
}

/// Removes the last character of the focused input, if it has any.
fn pop_focused(form: &mut FormState)
    requires
        old(form).focus < old(form).fields.len(),
    ensures
        ({
            let v = old(form)@.fields[old(form).focus as int].value;
            final(form)@ == set_focused(
                old(form)@,
                if v.len() == 0 {
                    v
                } else {
                    v.drop_last()
                },
            )
        }),
{
    let i = form.focus;
    let ghost v = old(form)@.fields[i as int].value;
    let mut f = FormField { label: "", value: String::new(), secret: false };
    form.fields.set_and_swap(i, &mut f);
    let _ = pop_char(&mut f.value);
    form.fields.set_and_swap(i, &mut f);
    assert(form@.fields =~= set_focused(
        old(form)@,
        if v.len() == 0 {
            v
        } else {
            v.drop_last()
        },
    ).fields);
}

/// `prefix` followed by `name`.
fn joined(prefix: &str, name: &str) -> (r: String)
    ensures
        r@ == prefix@ + name@,
{
    let mut r = String::from_str(prefix);
    r.append(name);
    r
}

impl<P> App<P> {
    /// The screen at start-up for the stored accounts.
    pub fn new(accounts: Vec<Account>) -> (app: Self)
        ensures
            app@ == initial::<P>(account_views(accounts@)),
    {
        let rows = loading_row_vec(accounts.len());
        App {
            accounts,
            tab: Tab::Dashboard,
            rows,
            selected: 0,
            accounts_selected: 0,
            detail: None,
            loading: true,
            should_quit: false,
            message: String::new(),
            spin: 0,
            form: None,
            confirm_delete: None,
            hide_amounts: false,
        }
    }

    /// The spinner's current frame.
    pub fn spinner(&self) -> (c: char)
        ensures
            c == spinner_frame(self.spin as int),
    {
        match self.spin % 10 {
            0 => '⠋',
            1 => '⠙',
            2 => '⠹',
            3 => '⠸',
            4 => '⠼',
            5 => '⠴',
            6 => '⠦',
            7 => '⠧',
            8 => '⠇',
            _ => '⠏',
        }
    }

    /// Marks a fetch as started: loading, and one loading row per account.
    /// The caller runs the fetch.
    pub fn start_fetch(&mut self)
        ensures
            final(self)@ == fetching(old(self)@),
    {
        self.loading = true;
        self.rows = loading_row_vec(self.accounts.len());
    }

    /// The stored accounts, as read back after an account was added; a
    /// fetch of them starts.
    pub fn accounts_reloaded(&mut self, accounts: Vec<Account>)
        ensures
            final(self)@ == fetching(AppView { accounts: account_views(accounts@), ..old(self)@ }),
    {
        self.accounts = accounts;
        self.start_fetch();
    }

    /// A clock tick. Returns whether a fetch was started, which the caller
    /// then runs.
    pub fn tick(&mut self, spin_due: bool, poll_due: bool) -> (fetch: bool)
        ensures
            fetch == (!old(self).loading && poll_due),
            final(self)@ == tick_step(old(self)@, spin_due, poll_due),
    {
        if spin_due {
            self.spin = self.spin.wrapping_add(1);
        }
        if !self.loading && poll_due {
            self.start_fetch();
            true
        } else {
            false
        }
    }

    /// A report from the running fetch.
    pub fn process_event(&mut self, msg: Msg<P>)
        ensures
            final(self)@ == event_step(old(self)@, msg),
    {
        match msg {
            Msg::Account(i, result) => {
                if i < self.rows.len() {
                    let row = match result {
                        Ok(p) => RowState::Loaded(p),
                        Err(e) => RowState::Failed(e),
                    };
                    self.rows.set(i, row);
                    assert(row_views(self.rows@) =~= old(self)@.rows.update(
                        i as int,
                        outcome_row(result),
                    ));
                }
            },
            Msg::Done => {
                self.loading = false;
            },
        }
    }

    /// A key press.
    pub fn on_key(&mut self, key: KeyPress) -> (e: Effect)
        requires
            key_ok(old(self)@, key),
        ensures
            final(self)@ == key_step(old(self)@, key).0,
            e@ == key_step(old(self)@, key).1,
    {
        if self.form.is_some() {
            return self.handle_form_key(key);
        }
        if let Some(idx) = self.confirm_delete {
            return self.handle_confirm_key(key, idx);
        }
        if self.detail.is_some() {
            match key.code {
                KeyCode::Esc | KeyCode::Char('q') | KeyCode::Enter | KeyCode::Char('h') => {
                    self.detail = None;
                },
                KeyCode::Char('s') => {
                    self.hide_amounts = !self.hide_amounts;
                },
                _ => {},
            }
            return Effect::Nothing;
        }
        if key.ctrl {
            match key.code {
                KeyCode::Char('c') | KeyCode::Char('q') => {
                    self.should_quit = true;
                },
                _ => {},
            }
            return Effect::Nothing;
        }
        match key.code {
            KeyCode::Char('q') => {
                self.should_quit = true;
                Effect::Nothing
            },
            KeyCode::Char('s') => {
                self.hide_amounts = !self.hide_amounts;
                Effect::Nothing
            },
            KeyCode::Char('r') => {
                self.start_fetch();
                Effect::Fetch
            },
            KeyCode::Tab => {
                self.tab =
                match self.tab {
                    Tab::Dashboard => Tab::Accounts,
                    Tab::Accounts => Tab::Dashboard,
                };
                Effect::Nothing
            },
            KeyCode::Down | KeyCode::Char('j') => {
                self.move_selection(1);
                Effect::Nothing
            },
            KeyCode::Up | KeyCode::Char('k') => {
                self.move_selection(-1);
                Effect::Nothing
            },
            KeyCode::Enter | KeyCode::Char('l') => {
                if self.tab == Tab::Dashboard && self.selected < self.rows.len() && matches!(
                    self.rows[self.selected],
                    RowState::Loaded(_)
                ) {
                    self.detail = Some(self.selected);
                }
                Effect::Nothing
            },
            KeyCode::Char('a') => {
                if self.tab == Tab::Accounts {
                    self.form = Some(new_account_form());
                }
                Effect::Nothing
            },
            KeyCode::Char('d') => {
                if self.tab == Tab::Accounts && self.accounts.len() > 0 {
                    self.confirm_delete = Some(self.accounts_selected);
                }
                Effect::Nothing
            },
            _ => Effect::Nothing,
        }
    }

    /// Moves the selection on the current page by `delta`.
    fn move_selection(&mut self, delta: i32)
        requires
            delta == 1 || delta == -1,
            move_ok(old(self)@, delta as int),
        ensures
            final(self)@ == moved(old(self)@, delta as int),
    {
        let len = match self.tab {
            Tab::Dashboard => self.rows.len(),
            Tab::Accounts => self.accounts.len(),
        };
        if len == 0 {
            return ;
        }
        let cur = match self.tab {
            Tab::Dashboard => self.selected,
            Tab::Accounts => self.accounts_selected,
        };
        assert(len as nat == page_len(self@));
        assert(cur == page_selected(self@));
        let v: i32 = cur as i32 + delta;
        let hi: i32 = len as i32 - 1;
        let next: i32 = if v < 0 {
            0
        } else if v > hi {
            hi
        } else {
            v
        };
        match self.tab {
            Tab::Dashboard => {
                self.selected = next as usize;
            },
            Tab::Accounts => {
                self.accounts_selected = next as usize;
            },
        }
    }

    fn handle_confirm_key(&mut self, key: KeyPress, idx: usize) -> (e: Effect)
        requires
            old(self).form is None,
            old(self).confirm_delete == Some(idx),
            is_char(key, 'y') ==> idx < old(self).accounts.len(),
        ensures
            final(self)@ == confirm_step(old(self)@, idx, key).0,
            e@ == confirm_step(old(self)@, idx, key).1,
    {
        match key.code {
            KeyCode::Char('y') => {
                let id = self.accounts[idx].id;
                self.message = joined("Deleted ", self.accounts[idx].name.as_str());
                let _ = self.accounts.remove(idx);
                if self.accounts_selected >= self.accounts.len() && self.accounts.len() > 0 {
                    self.accounts_selected = self.accounts.len() - 1;
                }
                self.confirm_delete = None;
                proof {
                    assert(account_views(self.accounts@) =~= old(self)@.accounts.remove(idx as int));
                }
                self.start_fetch();
                Effect::Delete(id)
            },
            KeyCode::Char('n') | KeyCode::Esc => {
                self.confirm_delete = None;
                Effect::Nothing
            },
            _ => Effect::Nothing,
        }
    }

    fn handle_form_key(&mut self, key: KeyPress) -> (e: Effect)
        requires
            old(self).form is Some,
            form_key_ok(old(self).form->0@, key),
        ensures
            final(self)@ == form_step(old(self)@, old(self).form->0@, key).0,
            e@ == form_step(old(self)@, old(self).form->0@, key).1,
    {
        let mut form = self.form.take().unwrap();
        match key.code {
            KeyCode::Esc => {
                return Effect::Nothing;
            },
            KeyCode::Tab | KeyCode::Down => {
                form.focus = (form.focus + 1) % form.fields.len();
            },
            KeyCode::Up => {
                if form.focus == 0 {
                    form.focus = form.fields.len() - 1;
                } else {
                    form.focus = form.focus - 1;
                }
            },
            KeyCode::Backspace => {
                pop_focused(&mut form);
            },
            KeyCode::Enter => {
                let vals = trimmed_vec(&form);
                match form_outcome(&vals) {
                    Ok(acc) => {
                        self.message = joined("Added ", acc.name.as_str());
                        return Effect::Add(acc);
                    },
                    Err(msg) => {
                        form.error = Some(msg);
                    },
                }
            },
            KeyCode::Char(c) => {
                if !key.ctrl {
                    push_focused(&mut form, c);
                }
            },
            _ => {},
        }
        self.form = Some(form);
        Effect::Nothing
    }
}

} // verus!
