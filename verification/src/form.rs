//! The form in which a new account is typed, and what its submission yields.

use vstd::prelude::*;
use vstd::string::*;
use crate::account::{NewAccount, NewAccountView};
use crate::text::{parse_i64, parsed_i64};

verus! {

/// One labelled input of the form; a secret one is shown masked.
#[derive(Debug)]
pub struct FormField {
    pub label: &'static str,
    pub value: String,
    pub secret: bool,
}

/// The form: its inputs, which one has the focus, and the last complaint.
#[derive(Debug)]
pub struct FormState {
    pub fields: Vec<FormField>,
    pub focus: usize,
    pub error: Option<String>,
}

pub struct FieldView {
    pub label: Seq<char>,
    pub value: Seq<char>,
    pub secret: bool,
}

pub struct FormView {
    pub fields: Seq<FieldView>,
    pub focus: usize,
    pub error: Option<Seq<char>>,
}

impl View for FormField {
    type V = FieldView;

    open spec fn view(&self) -> FieldView {
        FieldView { label: self.label@, value: self.value@, secret: self.secret }
    }
}

/// An optional text by its characters.
pub open spec fn opt_text(o: Option<String>) -> Option<Seq<char>> {
    match o {
        Some(s) => Some(s@),
        None => None,
    }
}

impl View for FormState {
    type V = FormView;

    open spec fn view(&self) -> FormView {
        FormView {
            fields: self.fields@.map_values(|f: FormField| f@),
            focus: self.focus,
            error: opt_text(self.error),
        }
    }
}

pub open spec fn field_view(label: Seq<char>, secret: bool) -> FieldView {
    FieldView { label, value: Seq::empty(), secret }
}

/// The empty add-account form: six inputs, the password among them secret,
/// the focus on the first, no complaint.
pub open spec fn blank_form() -> FormView {
    FormView {
        fields: seq![
            field_view("Name"@, false),
            field_view("Client ID"@, false),
            field_view("Username"@, false),
            field_view("Password"@, true),
            field_view("Demat"@, false),
            field_view("Client Code"@, false),
        ],
        focus: 0,
        error: None,
    }
}

fn blank_field(label: &'static str, secret: bool) -> (f: FormField)
    ensures
        f@ == field_view(label@, secret),
{
    FormField { label, value: String::new(), secret }
}

/// The empty add-account form.
pub fn new_account_form() -> (f: FormState)
    ensures
        f@ == blank_form(),
{
    let mut fields: Vec<FormField> = Vec::new();
    fields.push(blank_field("Name", false));
    fields.push(blank_field("Client ID", false));
    fields.push(blank_field("Username", false));
    fields.push(blank_field("Password", true));
    fields.push(blank_field("Demat", false));
    fields.push(blank_field("Client Code", false));
    let f = FormState { fields, focus: 0, error: None };
    assert(f@.fields =~= blank_form().fields);
    f
}

/// What submitting the (trimmed) input values yields: a new account when the
/// client id parses as an `i64` and no value is empty, else the complaint.
/// A client id that does not parse is reported before empty values.
pub open spec fn submission(vals: Seq<Seq<char>>) -> Result<NewAccountView, Seq<char>> {
    let empty = exists|i: int| 0 <= i < vals.len() && #[trigger] vals[i].len() == 0;
    match parsed_i64(vals[1]) {
        None => Err("Client ID must be a number"@),
        Some(id) => if empty {
            Err("All fields are required"@)
        } else {
            Ok(
                NewAccountView {
                    name: vals[0],
                    client_id: id,
                    username: vals[2],
                    password: vals[3],
                    demat: vals[4],
                    client_code: vals[5],
                },
            )
        },
    }
}

/// The views of a sequence of strings.
pub open spec fn string_views(v: Seq<String>) -> Seq<Seq<char>> {
    v.map_values(|s: String| s@)
}

/// The outcome of submitting the form with these input values, in the order
/// name, client id, username, password, demat, client code (any further
/// values only take part in the emptiness check).
pub fn form_outcome(vals: &Vec<String>) -> (r: Result<NewAccount, String>)
    requires
        vals.len() >= 6,
    ensures
        match r {
            Ok(a) => submission(string_views(vals@)) == Ok::<NewAccountView, Seq<char>>(a@),
            Err(e) => submission(string_views(vals@)) == Err::<NewAccountView, Seq<char>>(e@),
        },
{
    let ghost vs = string_views(vals@);
    let mut empty = false;
    let mut i: usize = 0;
    while i < vals.len()
        invariant
            i <= vals.len(),
            vs == string_views(vals@),
            empty == exists|k: int| 0 <= k < i && #[trigger] vs[k].len() == 0,
        decreases vals.len() - i,
    {
        if vals[i].as_str().is_empty() {
            empty = true;
        }
        proof {
            if empty {
                if vals@[i as int]@.len() == 0 {
                    assert(vs[i as int].len() == 0);
                }
            } else {
                assert forall|k: int| 0 <= k < i + 1 implies #[trigger] vs[k].len() != 0 by {
                    if k == i {
                        assert(vs[k] == vals@[i as int]@);
                    }
                }
            }
        }
        i = i + 1;
    }
    assert(vs[1] == vals@[1]@);
    match parse_i64(vals[1].as_str()) {
        None => Err(String::from_str("Client ID must be a number")),
        Some(id) => {
            if empty {
                Err(String::from_str("All fields are required"))
            } else {
                Ok(
                    NewAccount {
                        name: vals[0].clone(),
                        client_id: id,
                        username: vals[2].clone(),
                        password: vals[3].clone(),
                        demat: vals[4].clone(),
                        client_code: vals[5].clone(),
                    },
                )
            }
        },
    }
}

} // verus!
