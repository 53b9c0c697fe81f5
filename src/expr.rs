//! The reduced expression grammar: a key or one of a few layer actions, and
//! `timeout(...)` over two such expressions. This is what an action's
//! nested-action parameter accepts; it holds no macros.
use vstd::prelude::*;
use vstd::string::StrSliceExecFns;
use crate::error::{result_view, ErrorView, ParseError};
use crate::grammar::{name_chars, ActionName};
use crate::text::{
    call_parts, call_parts_str, chars_of, lemma_split_len, lemma_trim_len, parse_u16, split,
    split_str, str_views, strip_wrap, strip_wrap_str, trim, trim_str, u16_text,
};
use crate::token::{chars_valid_ident, is_valid_ident, valid_ident};

verus! {

/// An expression of the reduced grammar.
pub enum KeydExpr {
    Key(String),
    Layer(String),
    Oneshot(String),
    Swap(String),
    SetLayout(String),
    Clear,
    Toggle(String),
    /// The first expression, the time in milliseconds, the second expression.
    Timeout(Box<KeydExpr>, u16, Box<KeydExpr>),
}

/// The abstract form of a [`KeydExpr`].
pub enum ExprView {
    Key(Seq<char>),
    Layer(Seq<char>),
    Oneshot(Seq<char>),
    Swap(Seq<char>),
    SetLayout(Seq<char>),
    Clear,
    Toggle(Seq<char>),
    Timeout(Box<ExprView>, u16, Box<ExprView>),
}

impl View for KeydExpr {
    type V = ExprView;

    open spec fn view(&self) -> ExprView
        decreases self,
    {
        match self {
            KeydExpr::Key(s) => ExprView::Key(s@),
            KeydExpr::Layer(s) => ExprView::Layer(s@),
            KeydExpr::Oneshot(s) => ExprView::Oneshot(s@),
            KeydExpr::Swap(s) => ExprView::Swap(s@),
            KeydExpr::SetLayout(s) => ExprView::SetLayout(s@),
            KeydExpr::Clear => ExprView::Clear,
            KeydExpr::Toggle(s) => ExprView::Toggle(s@),
            KeydExpr::Timeout(a, t, b) => ExprView::Timeout(
                Box::new((**a).view()),
                *t,
                Box::new((**b).view()),
            ),
        }
    }
}

/// `name(`, the opening of a call.
pub open spec fn opening(a: ActionName) -> Seq<char> {
    name_chars(a).push('(')
}

/// `)`, the end of a call.
pub open spec fn closing() -> Seq<char> {
    seq![')']
}

/// The argument of `s` read as a one-argument call of `a`, trimmed.
pub open spec fn arg_of(s: Seq<char>, a: ActionName) -> Option<Seq<char>> {
    strip_wrap(s, opening(a), closing())
}

/// A key name as the argument of a one-argument call.
pub open spec fn named(x: Seq<char>, v: ExprView) -> Result<ExprView, ErrorView> {
    if valid_ident(x) {
        Ok(v)
    } else {
        Err(ErrorView::InvalidIdent(x))
    }
}

/// What the reduced grammar makes of `s`. The first rule that applies wins:
/// a key name; `layer(x)`, `oneshot(x)`, `swap(x)`, `setlayout(x)` with a key
/// name `x`; `clear()`; `toggle(x)`; `timeout(a, t, b)`, whose branches are read
/// first and then the time. Anything else is an unknown call, or not a call.
pub open spec fn reduced_spec(s: Seq<char>) -> Result<ExprView, ErrorView>
    decreases s.len(),
    via reduced_spec_decreases
{
    if valid_ident(s) {
        Ok(ExprView::Key(s))
    } else if arg_of(s, ActionName::Layer) is Some {
        let x = arg_of(s, ActionName::Layer)->Some_0;
        named(x, ExprView::Layer(x))
    } else if arg_of(s, ActionName::Oneshot) is Some {
        let x = arg_of(s, ActionName::Oneshot)->Some_0;
        named(x, ExprView::Oneshot(x))
    } else if arg_of(s, ActionName::Swap) is Some {
        let x = arg_of(s, ActionName::Swap)->Some_0;
        named(x, ExprView::Swap(x))
    } else if arg_of(s, ActionName::SetLayout) is Some {
        let x = arg_of(s, ActionName::SetLayout)->Some_0;
        named(x, ExprView::SetLayout(x))
    } else if arg_of(s, ActionName::Clear) is Some && arg_of(s, ActionName::Clear)->Some_0.len()
        == 0 {
        Ok(ExprView::Clear)
    } else if arg_of(s, ActionName::Toggle) is Some {
        let x = arg_of(s, ActionName::Toggle)->Some_0;
        named(x, ExprView::Toggle(x))
    } else if arg_of(s, ActionName::Timeout) is Some {
        let inner = arg_of(s, ActionName::Timeout)->Some_0;
        let p = split(inner, ',');
        if p.len() == 3 {
            match reduced_spec(trim(p[0])) {
                Err(e) => Err(e),
                Ok(a) => match reduced_spec(trim(p[2])) {
                    Err(e) => Err(e),
                    Ok(b) => match u16_text(trim(p[1])) {
                        None => Err(ErrorView::InvalidInt),
                        Some(t) => Ok(ExprView::Timeout(Box::new(a), t, Box::new(b))),
                    },
                },
            }
        } else {
            Err(ErrorView::BadArgs(name_chars(ActionName::Timeout), inner))
        }
    } else if call_parts(s) is Some {
        Err(ErrorView::InvalidCall(call_parts(s)->Some_0.0))
    } else {
        Err(ErrorView::InvalidIdent(s))
    }
}

#[via_fn]
proof fn reduced_spec_decreases(s: Seq<char>) {
    lemma_pieces_shorter(s);
}

/// The pieces of a `timeout(...)` argument, trimmed, are shorter than the whole.
proof fn lemma_pieces_shorter(s: Seq<char>)
    ensures
        arg_of(s, ActionName::Timeout) is Some ==> {
            let p = split(arg_of(s, ActionName::Timeout)->Some_0, ',');
            forall|i: int| 0 <= i < p.len() ==> #[trigger] trim(p[i]).len() < s.len()
        },
{
    if arg_of(s, ActionName::Timeout) is Some {
        let inner = arg_of(s, ActionName::Timeout)->Some_0;
        lemma_trim_len(s.subrange(8, s.len() - 1));
        lemma_split_len(inner, ',');
        let p = split(inner, ',');
        assert forall|i: int| 0 <= i < p.len() implies #[trigger] trim(p[i]).len() < s.len() by {
            lemma_trim_len(p[i]);
        }
    }
}

/// The one argument of `s` read as a call of `a`, with the literal `open`
/// spelling the call's opening.
fn arg_str<'a>(s: &'a str, cs: &Vec<char>, a: ActionName, open: &[char]) -> (r: Option<&'a str>)
    requires
        cs@ == s@,
        open@ == opening(a),
    ensures
        r is None <==> arg_of(s@, a) is None,
        r is Some ==> arg_of(s@, a) == Some(r->Some_0@),
{
    let close = [')'];
    assert(close@ =~= closing());
    strip_wrap_str(s, cs, open, &close)
}

fn named_str(x: &str, e: KeydExpr) -> (r: Result<KeydExpr, ParseError>)
    ensures
        result_view(r, |e: KeydExpr| e@) == named(x@, e@),
{
    if is_valid_ident(x) {
        Ok(e)
    } else {
        Err(ParseError::InvalidIdent(x.to_owned()))
    }
}

impl KeydExpr {
    /// Whether `s` is a bare key name.
    pub fn is_valid_ident(s: &str) -> (r: bool)
        ensures
            r == valid_ident(s@),
    {
        is_valid_ident(s)
    }

    /// Reads `s` by the reduced grammar.
    pub fn parse(s: &str) -> (r: Result<KeydExpr, ParseError>)
        ensures
            result_view(r, |e: KeydExpr| e@) == reduced_spec(s@),
        decreases s@.len(),
    {
        let cs = chars_of(s);
        if chars_valid_ident(&cs) {
            return Ok(KeydExpr::Key(s.to_owned()));
        }
        let w = ['l', 'a', 'y', 'e', 'r', '('];
        assert(w@ =~= opening(ActionName::Layer));
        if let Some(x) = arg_str(s, &cs, ActionName::Layer, &w) {
            return named_str(x, KeydExpr::Layer(x.to_owned()));
        }
        let w = ['o', 'n', 'e', 's', 'h', 'o', 't', '('];
        assert(w@ =~= opening(ActionName::Oneshot));
        if let Some(x) = arg_str(s, &cs, ActionName::Oneshot, &w) {
            return named_str(x, KeydExpr::Oneshot(x.to_owned()));
        }
        let w = ['s', 'w', 'a', 'p', '('];
        assert(w@ =~= opening(ActionName::Swap));
        if let Some(x) = arg_str(s, &cs, ActionName::Swap, &w) {
            return named_str(x, KeydExpr::Swap(x.to_owned()));
        }
        let w = ['s', 'e', 't', 'l', 'a', 'y', 'o', 'u', 't', '('];
        assert(w@ =~= opening(ActionName::SetLayout));
        if let Some(x) = arg_str(s, &cs, ActionName::SetLayout, &w) {
            return named_str(x, KeydExpr::SetLayout(x.to_owned()));
        }
        let w = ['c', 'l', 'e', 'a', 'r', '('];
        assert(w@ =~= opening(ActionName::Clear));
        if let Some(x) = arg_str(s, &cs, ActionName::Clear, &w) {
            if x.unicode_len() == 0 {
                return Ok(KeydExpr::Clear);
            }
        }
        let w = ['t', 'o', 'g', 'g', 'l', 'e', '('];
        assert(w@ =~= opening(ActionName::Toggle));
        if let Some(x) = arg_str(s, &cs, ActionName::Toggle, &w) {
            return named_str(x, KeydExpr::Toggle(x.to_owned()));
        }
        let w = ['t', 'i', 'm', 'e', 'o', 'u', 't', '('];
        assert(w@ =~= opening(ActionName::Timeout));
        if let Some(inner) = arg_str(s, &cs, ActionName::Timeout, &w) {
            let ics = chars_of(inner);
            let p = split_str(inner, &ics, ',');
            proof {
                lemma_pieces_shorter(s@);
                lemma_split_len(inner@, ',');
            }
            if p.len() == 3 {
                let ghost pv = str_views(p@);
                assert(pv[0] == p@[0]@ && pv[1] == p@[1]@ && pv[2] == p@[2]@);
                let first = trim_str(p[0]);
                let second = trim_str(p[2]);
                let time = trim_str(p[1]);
                let a = match KeydExpr::parse(first) {
                    Ok(a) => a,
                    Err(e) => return Err(e),
                };
                let b = match KeydExpr::parse(second) {
                    Ok(b) => b,
                    Err(e) => return Err(e),
                };
                return match parse_u16(time) {
                    Ok(t) => Ok(KeydExpr::Timeout(Box::new(a), t, Box::new(b))),
                    Err(e) => Err(ParseError::InvalidInt(e)),
                };
            } else {
                let name = s.substring_char(0, 7);
                assert(name@ =~= opening(ActionName::Timeout).subrange(0, 7));
                assert(name@ =~= name_chars(ActionName::Timeout));
                return Err(ParseError::BadArgs(name.to_owned(), inner.to_owned()));
            }
        }
        match call_parts_str(s, &cs) {
            Some((name, _)) => Err(ParseError::InvalidCall(name.to_owned())),
            None => Err(ParseError::InvalidIdent(s.to_owned())),
        }
    }
}

} // verus!
