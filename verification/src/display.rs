//! The texts the screen shows that depend on its state: amounts (masked when
//! hidden), profit and loss, the footer, masked secrets.

use vstd::prelude::*;
use vstd::string::*;
use crate::app::{App, AppView, RowState, Tab, spinner_frame};
use crate::text::{fmt_money, money_text, push_char};

verus! {

/// What replaces an amount while amounts are hidden.
pub open spec fn mask() -> Seq<char> {
    "••••"@
}

/// An amount as shown: masked while amounts are hidden, else with
/// thousands separators.
pub open spec fn money_shown<P>(s: AppView<P>, fixed: Seq<char>) -> Seq<char> {
    if s.hide_amounts {
        mask()
    } else {
        money_text(fixed)
    }
}

/// A profit or loss as shown: masked while amounts are hidden, else a `+`
/// in front of a non-negative amount.
pub open spec fn pl_shown<P>(s: AppView<P>, nonneg: bool, fixed: Seq<char>) -> Seq<char> {
    if s.hide_amounts {
        mask()
    } else if nonneg {
        "+"@ + money_text(fixed)
    } else {
        money_text(fixed)
    }
}

/// The key hints of the accounts page (with nothing open over it).
pub open spec fn account_hints() -> Seq<char> {
    " q quit  |  Tab switch  |  a add  |  d delete  |  s hide  |  r refresh  "@
}

/// The key hints everywhere else.
pub open spec fn navigation_hints() -> Seq<char> {
    " q quit  |  Tab switch  |  s hide  |  r refresh  |  h/j/k/l move  "@
}

/// The footer: the key hints, and the spinner while a fetch runs or else
/// the last message.
pub open spec fn footer<P>(s: AppView<P>) -> (Seq<char>, Seq<char>) {
    (
        if s.tab == Tab::Accounts && s.form is None && s.confirm_delete is None {
            account_hints()
        } else {
            navigation_hints()
        },
        if s.loading {
            seq![spinner_frame(s.spin as int)] + " fetching..."@
        } else {
            s.message
        },
    )
}

/// One `'*'` per byte of the secret's UTF-8 encoding.
pub open spec fn masked(s: &str) -> Seq<char> {
    Seq::new(s.len() as nat, |i: int| '*')
}

/// A secret as shown: one `'*'` per byte.
pub fn mask_secret(s: &str) -> (r: String)
    ensures
        r@ == masked(s),
{
    let n = s.len();
    let mut r = String::new();
    let mut i: usize = 0;
    while i < n
        invariant
            i <= n,
            n == s.len(),
            r@ == Seq::new(i as nat, |k: int| '*'),
        decreases n - i,
    {
        push_char(&mut r, '*');
        assert(r@ =~= Seq::new((i + 1) as nat, |k: int| '*'));
        i = i + 1;
    }
    r
}

/// The top line of the box drawn around the selected table row: rows are
/// three lines high and start three lines (the header) below the table's
/// inner top; `offset` is the first row scrolled into view.
pub open spec fn highlight_y(inner_y: u16, selected: usize, offset: usize) -> int {
    let shown = if selected >= offset {
        (selected - offset) as usize
    } else {
        0usize
    };
    inner_y + 3 + (shown as u16) * 3
}

/// The top line of the selected row's box, computed in `u16`.
pub fn highlight_row_y(inner_y: u16, selected: usize, offset: usize) -> (y: u16)
    requires
        highlight_y(inner_y, selected, offset) <= u16::MAX,
    ensures
        y == highlight_y(inner_y, selected, offset),
{
    let shown = selected.saturating_sub(offset);
    let rows = shown as u16;
    assert(rows * 3 <= u16::MAX);
    inner_y + 3 + rows * 3
}

/// The email column of the accounts page for the account at `i`: the email
/// of its fetched portfolio (as `email` reads it), `"..."` while it loads,
/// `"ERR"` when the fetch failed or there is no row.
pub fn account_email<P, F: Fn(&P) -> String>(rows: &Vec<RowState<P>>, i: usize, email: F) -> (r: String)
    requires
        forall|p: &P| #[trigger] email.requires((p,)),
    ensures
        i < rows.len() && rows@[i as int] is Loaded ==> email.ensures((&rows@[i as int]->Loaded_0,), r),
        i < rows.len() && rows@[i as int] is Loading ==> r@ == "..."@,
        i >= rows.len() || rows@[i as int] is Failed ==> r@ == "ERR"@,
{
    if i < rows.len() {
        match &rows[i] {
            RowState::Loaded(p) => email(p),
            RowState::Loading => String::from_str("..."),
            RowState::Failed(_) => String::from_str("ERR"),
        }
    } else {
        String::from_str("ERR")
    }
}

/// Law: an amount shows as four bullets while amounts are hidden, and with
/// its thousands separators otherwise; a profit or loss the same, with a
/// `+` in front of one that is not negative.
pub proof fn lemma_amount_texts<P>(s: AppView<P>, nonneg: bool, fixed: Seq<char>)
    ensures
        s.hide_amounts ==> money_shown(s, fixed) == "••••"@ && pl_shown(s, nonneg, fixed) == "••••"@,
        !s.hide_amounts ==> money_shown(s, fixed) == money_text(fixed),
        !s.hide_amounts && nonneg ==> pl_shown(s, nonneg, fixed) == "+"@ + money_text(fixed),
        !s.hide_amounts && !nonneg ==> pl_shown(s, nonneg, fixed) == money_text(fixed),
{
}

/// Law: the footer offers adding and deleting only on the accounts page with
/// nothing open over it, and shows the spinner exactly while a fetch runs,
/// the last message otherwise.
pub proof fn lemma_footer<P>(s: AppView<P>)
    ensures
        s.tab == Tab::Accounts && s.form is None && s.confirm_delete is None ==> footer(s).0
            == " q quit  |  Tab switch  |  a add  |  d delete  |  s hide  |  r refresh  "@,
        !(s.tab == Tab::Accounts && s.form is None && s.confirm_delete is None) ==> footer(s).0
            == " q quit  |  Tab switch  |  s hide  |  r refresh  |  h/j/k/l move  "@,
        s.loading ==> footer(s).1 == seq![spinner_frame(s.spin as int)] + " fetching..."@,
        !s.loading ==> footer(s).1 == s.message,
{
}

impl<P> App<P> {
    /// An amount as shown; `fixed` is the amount written with two
    /// decimals (as `format!("{:.2}", v)` writes it).
    pub fn money(&self, fixed: &str) -> (r: String)
        requires
            !self.hide_amounts ==> fixed@.contains('.'),
        ensures
            r@ == money_shown(self@, fixed@),
    {
        if self.hide_amounts {
            String::from_str("••••")
        } else {
            fmt_money(fixed)
        }
    }

    /// A profit or loss as shown; `nonneg` says whether it is at least zero,
    /// `fixed` is it written with two decimals.
    pub fn pl_text(&self, nonneg: bool, fixed: &str) -> (r: String)
        requires
            !self.hide_amounts ==> fixed@.contains('.'),
        ensures
            r@ == pl_shown(self@, nonneg, fixed@),
    {
        if self.hide_amounts {
            String::from_str("••••")
        } else {
            let m = fmt_money(fixed);
            if nonneg {
                let mut r = String::from_str("+");
                r.append(m.as_str());
                r
            } else {
                m
            }
        }
    }

    /// The footer's key hints and status.
    pub fn footer_text(&self) -> (r: (String, String))
        ensures
            r.0@ == footer(self@).0,
            r.1@ == footer(self@).1,
    {
        let left = if self.tab == Tab::Accounts && self.form.is_none()
            && self.confirm_delete.is_none() {
            String::from_str(" q quit  |  Tab switch  |  a add  |  d delete  |  s hide  |  r refresh  ")
        } else {
            String::from_str(" q quit  |  Tab switch  |  s hide  |  r refresh  |  h/j/k/l move  ")
        };
        let right = if self.loading {
            let mut t = String::new();
            push_char(&mut t, self.spinner());
            t.append(" fetching...");
            assert(t@ =~= seq![spinner_frame(self.spin as int)] + " fetching..."@);
            t
        } else {
            self.message.clone()
        };
        (left, right)
    }
}

} // verus!
