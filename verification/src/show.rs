//! Text for values, expressions and errors, as a host prints them.

use crate::base::{items_get, items_len, items_seq, result_view};
use crate::base::{EvalError, EvalResult, Expr, Val};
use crate::model::{ErrorView, ExprView, ValView};
use vstd::prelude::*;
use vstd::string::StringExecFns;

verus! {

/// The decimal digits of `n`, most significant first.
pub open spec fn digits(n: nat) -> Seq<char>
    decreases n,
{
    let last = seq!['0', '1', '2', '3', '4', '5', '6', '7', '8', '9'][(n % 10) as int];
    if n < 10 {
        seq![last]
    } else {
        digits(n / 10).push(last)
    }
}

/// The decimal text of an integer: its digits, after a minus sign where it
/// is negative.
pub open spec fn decimal(i: int) -> Seq<char> {
    if i < 0 {
        seq!['-'] + digits((-i) as nat)
    } else {
        digits(i as nat)
    }
}

/// The decimal text of `i`.
///
/// Trusted: the `Debug` formatting of `i64` by std, which writes a signed
/// integer in decimal, with a leading minus sign for a negative one.
#[verifier::external_body]
fn decimal_text(i: i64) -> (r: String)
    ensures
        r@ == decimal(i as int),
{
    format!("{:?}", i)
}

/// A string as a literal: between double quotes, with the characters
/// escaped that a literal cannot hold as they are.
pub uninterp spec fn quoted(s: Seq<char>) -> Seq<char>;

/// `s` as a string literal.
///
/// Trusted: the `Debug` formatting of `str` by std. What it writes depends
/// on the characters of the string alone.
#[verifier::external_body]
fn quoted_text(s: &str) -> (r: String)
    ensures
        r@ == quoted(s@),
{
    format!("{:?}", s)
}

/// The text of an error.
pub open spec fn show_error(e: ErrorView) -> Seq<char> {
    match e {
        ErrorView::TypeMismatch(reason) => "TypeMismatch("@ + quoted(reason) + ")"@,
        ErrorView::UndefinedName(name) => "UndefinedName("@ + quoted(name) + ")"@,
        ErrorView::Misc(message) => "Misc("@ + quoted(message) + ")"@,
    }
}

impl EvalError {
    /// The text of the error: the variant and what it carries.
    pub fn to_text(&self) -> (r: String)
        ensures
            r@ == show_error(self@),
    {
        let (mut out, inner) = match self {
            EvalError::TypeMismatch(reason) => (
                String::from_str("TypeMismatch("),
                quoted_text(reason),
            ),
            EvalError::UndefinedName(name) => (
                String::from_str("UndefinedName("),
                quoted_text(name.as_str()),
            ),
            EvalError::Misc(message) => (String::from_str("Misc("), quoted_text(message.as_str())),
        };
        out.append(inner.as_str());
        out.append(")");
        out
    }
}

/// The text of the first `n` elements of a vector, separated by commas.
pub open spec fn show_items(items: Seq<ValView>, n: nat) -> Seq<char>
    decreases items, n,
{
    if n == 0 || n > items.len() {
        Seq::empty()
    } else if n == 1 {
        show_val(items[0])
    } else {
        show_items(items, (n - 1) as nat) + ", "@ + show_val(items[n - 1])
    }
}

/// The text of a value: the variant and what it holds. Of a function only
/// its name or its parameter is shown.
pub open spec fn show_val(v: ValView) -> Seq<char>
    decreases v, 0nat,
{
    match v {
        ValView::Int(i) => "Int("@ + decimal(i) + ")"@,
        ValView::Str(s) => "Str("@ + quoted(s) + ")"@,
        ValView::Vec(items) => "Vec(["@ + show_items(items, items.len()) + "])"@,
        ValView::Builtin(name, _) => "BuiltinFn("@ + quoted(name) + ", \"...\")"@,
        ValView::UserFn { argname, .. } => "UserFn("@ + quoted(argname) + ", \"...\")"@,
    }
}

/// The text of an expression.
pub open spec fn show_expr(e: ExprView) -> Seq<char>
    decreases e,
{
    match e {
        ExprView::Put(v) => "Put("@ + show_val(v) + ")"@,
        ExprView::Name(name) => "Name("@ + quoted(name) + ")"@,
        ExprView::Call { func, arg } => "Call { func: "@ + show_expr(*func) + ", arg: "@
            + show_expr(*arg) + " }"@,
        ExprView::Lam { argname, body } => "Lam { argname: "@ + quoted(argname) + ", body: "@
            + show_expr(*body) + " }"@,
    }
}

/// The text of a result.
pub open spec fn show_result(r: Result<ValView, ErrorView>) -> Seq<char> {
    match r {
        Ok(v) => "Ok("@ + show_val(v) + ")"@,
        Err(e) => "Err("@ + show_error(e) + ")"@,
    }
}

impl Val {
    /// The text of the value.
    pub fn to_text(&self) -> (r: String)
        ensures
            r@ == show_val(self@),
        decreases self@,
    {
        match self {
            Val::Int(i) => {
                let mut out = String::from_str("Int(");
                out.append(decimal_text(*i).as_str());
                out.append(")");
                out
            },
            Val::Str(s) => {
                let mut out = String::from_str("Str(");
                out.append(quoted_text(s.as_str()).as_str());
                out.append(")");
                out
            },
            Val::Vec(items) => {
                let ghost held = items_seq(*items);
                let mut out = String::from_str("Vec([");
                let n = items_len(items);
                let mut i: usize = 0;
                assert("Vec(["@ + show_items(held, 0) =~= "Vec(["@);
                while i < n
                    invariant
                        i <= n,
                        n == held.len(),
                        held == items_seq(*items),
                        self@ == ValView::Vec(held),
                        out@ == "Vec(["@ + show_items(held, i as nat),
                    decreases n - i,
                {
                    if i > 0 {
                        out.append(", ");
                    }
                    match items_get(items, i) {
                        Some(v) => {
                            assert(self@ matches ValView::Vec(of) && of == held
                                && decreases_to!(self@ => of));
                            assert(decreases_to!(held => held[i as int]));
                            let text = v.to_text();
                            out.append(text.as_str());
                        },
                        None => {},
                    }
                    i = i + 1;
                    assert(out@ =~= "Vec(["@ + show_items(held, i as nat));
                }
                out.append("])");
                out
            },
            Val::Builtin(name, _) => {
                let mut out = String::from_str("BuiltinFn(");
                out.append(quoted_text(name).as_str());
                out.append(", \"...\")");
                out
            },
            Val::UserFn { argname, body: _, ns: _ } => {
                let mut out = String::from_str("UserFn(");
                out.append(quoted_text(argname.as_str()).as_str());
                out.append(", \"...\")");
                out
            },
        }
    }
}

impl Expr {
    /// The text of the expression.
    pub fn to_text(&self) -> (r: String)
        ensures
            r@ == show_expr(self@),
        decreases self,
    {
        match self {
            Expr::Put(v) => {
                let mut out = String::from_str("Put(");
                out.append(v.to_text().as_str());
                out.append(")");
                out
            },
            Expr::Name(name) => {
                let mut out = String::from_str("Name(");
                out.append(quoted_text(name.as_str()).as_str());
                out.append(")");
                out
            },
            Expr::Call { func, arg } => {
                let mut out = String::from_str("Call { func: ");
                out.append(func.to_text().as_str());
                out.append(", arg: ");
                out.append(arg.to_text().as_str());
                out.append(" }");
                out
            },
            Expr::Lam { argname, body } => {
                let mut out = String::from_str("Lam { argname: ");
                out.append(quoted_text(argname.as_str()).as_str());
                out.append(", body: ");
                out.append(body.to_text().as_str());
                out.append(" }");
                out
            },
        }
    }
}

/// The text of a result: `Ok` or `Err` around the text of what it holds.
pub fn result_text(r: &EvalResult) -> (text: String)
    ensures
        text@ == show_result(result_view(*r)),
{
    match r {
        Ok(v) => {
            let mut out = String::from_str("Ok(");
            out.append(v.to_text().as_str());
            out.append(")");
            out
        },
        Err(e) => {
            let mut out = String::from_str("Err(");
            out.append(e.to_text().as_str());
            out.append(")");
            out
        },
    }
}

} // verus!
