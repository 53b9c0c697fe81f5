//! The full expression grammar: a key, or a call of an action from the
//! table, each argument read by its parameter kind.
use vstd::prelude::*;
use crate::error::{result_view, ErrorView, ParseError};
use crate::expr::{closing, reduced_spec, ExprView, KeydExpr};
use crate::grammar::{lookup, lookup_spec, params_of, ActionName, ParamKind};
use crate::macros::{macro_spec, macro_word, parse_macro, tokens_view};
use crate::text::{
    call_parts, call_parts_str, chars_of, parse_u16, split, split_str, str_views, strip_wrap,
    strip_wrap_str, u16_text,
};
use crate::token::{combination_of, is_valid_ident, chars_valid_ident, valid_ident, MacroToken, TokenView};

verus! {

/// An argument of an action, converted by its kind.
pub enum Param {
    Layer(String),
    Layout(String),
    Macro(Vec<MacroToken>),
    Timeout(u16),
    Command(String),
    Act(KeydExpr),
}

/// The abstract form of a [`Param`].
pub enum ParamView {
    Layer(Seq<char>),
    Layout(Seq<char>),
    Macro(Seq<TokenView>),
    Timeout(u16),
    Command(Seq<char>),
    Act(ExprView),
}

impl View for Param {
    type V = ParamView;

    open spec fn view(&self) -> ParamView {
        match self {
            Param::Layer(s) => ParamView::Layer(s@),
            Param::Layout(s) => ParamView::Layout(s@),
            Param::Macro(m) => ParamView::Macro(tokens_view(m@)),
            Param::Timeout(t) => ParamView::Timeout(*t),
            Param::Command(s) => ParamView::Command(s@),
            Param::Act(e) => ParamView::Act(e@),
        }
    }
}

/// The kind of parameter that a converted argument answers to.
pub open spec fn kind_of(p: ParamView) -> ParamKind {
    match p {
        ParamView::Layer(_) => ParamKind::LayerName,
        ParamView::Layout(_) => ParamKind::LayoutName,
        ParamView::Macro(_) => ParamKind::MacroSeq,
        ParamView::Timeout(_) => ParamKind::Timeout,
        ParamView::Command(_) => ParamKind::Command,
        ParamView::Act(_) => ParamKind::NestedAction,
    }
}

/// The abstract form of a sequence of arguments.
pub open spec fn param_views(v: Seq<Param>) -> Seq<ParamView> {
    v.map_values(|p: Param| p@)
}

/// A macro argument: one character as literal text, a key combination, or a
/// `macro(...)` block.
pub open spec fn macro_arg_spec(p: Seq<char>) -> Result<Seq<TokenView>, ErrorView> {
    let block = strip_wrap(p, macro_word().push('('), closing());
    if p.len() == 1 {
        Ok(seq![TokenView::Text(p)])
    } else if combination_of(p) is Some {
        Ok(seq![combination_of(p)->Some_0])
    } else if block is Some {
        Ok(macro_spec(block->Some_0))
    } else {
        Err(ErrorView::InvalidIdent(p))
    }
}

/// One argument `p` converted for a parameter of kind `k`.
pub open spec fn convert_spec(k: ParamKind, p: Seq<char>) -> Result<ParamView, ErrorView> {
    match k {
        ParamKind::LayerName => if valid_ident(p) {
            Ok(ParamView::Layer(p))
        } else {
            Err(ErrorView::InvalidIdent(p))
        },
        ParamKind::LayoutName => Ok(ParamView::Layout(p)),
        ParamKind::MacroSeq => match macro_arg_spec(p) {
            Ok(m) => Ok(ParamView::Macro(m)),
            Err(e) => Err(e),
        },
        ParamKind::Timeout => match u16_text(p) {
            Some(t) => Ok(ParamView::Timeout(t)),
            None => Err(ErrorView::InvalidInt),
        },
        ParamKind::Command => Ok(ParamView::Command(p)),
        ParamKind::NestedAction => match reduced_spec(p) {
            Ok(e) => Ok(ParamView::Act(e)),
            Err(e) => Err(e),
        },
    }
}

/// The arguments converted in order; the first failure is the result.
pub open spec fn convert_all(ks: Seq<ParamKind>, ps: Seq<Seq<char>>) -> Result<
    Seq<ParamView>,
    ErrorView,
>
    decreases ks.len(),
{
    if ks.len() == 0 || ps.len() == 0 {
        Ok(Seq::empty())
    } else {
        match convert_spec(ks[0], ps[0]) {
            Err(e) => Err(e),
            Ok(v) => match convert_all(ks.drop_first(), ps.drop_first()) {
                Err(e) => Err(e),
                Ok(rest) => Ok(seq![v] + rest),
            },
        }
    }
}

/// `d` put before a successful result; a failure stays as it is.
pub open spec fn prepend(d: Seq<ParamView>, r: Result<Seq<ParamView>, ErrorView>) -> Result<
    Seq<ParamView>,
    ErrorView,
> {
    match r {
        Ok(x) => Ok(d + x),
        Err(e) => Err(e),
    }
}

/// The raw arguments split at every `,`, where that gives `n` pieces. An
/// action without parameters takes only the empty argument list.
pub open spec fn arg_pieces(n: nat, args: Seq<char>) -> Option<Seq<Seq<char>>> {
    if n == 0 {
        if args.len() == 0 {
            Some(Seq::empty())
        } else {
            None
        }
    } else if split(args, ',').len() == n {
        Some(split(args, ','))
    } else {
        None
    }
}

/// The abstract form of an [`Action`]: a key, nothing, or an action of the
/// table with its converted arguments.
pub enum ActionView {
    Key(Seq<char>),
    Noop,
    Call(ActionName, Seq<ParamView>),
}

/// What the full grammar makes of `s`: a key name; else a call
/// `name(args)`, split at the first `(`, of a known action whose arguments,
/// split at every `,`, are as many as its parameters and each convert.
pub open spec fn action_spec(s: Seq<char>) -> Result<ActionView, ErrorView> {
    if valid_ident(s) {
        Ok(ActionView::Key(s))
    } else if call_parts(s) is None {
        Err(ErrorView::InvalidIdent(s))
    } else {
        let name = call_parts(s)->Some_0.0;
        let args = call_parts(s)->Some_0.1;
        match lookup_spec(name) {
            None => Err(ErrorView::InvalidCall(name)),
            Some(a) => match arg_pieces(params_of(a).len(), args) {
                None => Err(ErrorView::BadArgs(name, args)),
                Some(ps) => match convert_all(params_of(a), ps) {
                    Err(e) => Err(e),
                    Ok(vs) => Ok(ActionView::Call(a, vs)),
                },
            },
        }
    }
}

/// An expression of the full grammar.
pub enum Action {
    Key(String),
    Noop,
    Layer(String),
    Oneshot(String),
    Swap(String),
    SetLayout(String),
    Clear,
    Toggle(String),
    Layerm(String, Vec<MacroToken>),
    Oneshotm(String, Vec<MacroToken>),
    Swapm(String, Vec<MacroToken>),
    Togglem(String, Vec<MacroToken>),
    Clearm(Vec<MacroToken>),
    Overload(String, KeydExpr),
    Overloadt(String, KeydExpr, u16),
    Overloadt2(String, KeydExpr, u16),
    Timeout(KeydExpr, u16, KeydExpr),
    Macro2(u16, u16, Vec<MacroToken>),
    Command(String),
}

impl View for Action {
    type V = ActionView;

    open spec fn view(&self) -> ActionView {
        match self {
            Action::Key(s) => ActionView::Key(s@),
            Action::Noop => ActionView::Noop,
            Action::Layer(f0) => ActionView::Call(ActionName::Layer, seq![ParamView::Layer(f0@)]),
            Action::Oneshot(f0) => ActionView::Call(ActionName::Oneshot, seq![ParamView::Layer(f0@)]),
            Action::Swap(f0) => ActionView::Call(ActionName::Swap, seq![ParamView::Layer(f0@)]),
            Action::SetLayout(f0) => ActionView::Call(ActionName::SetLayout, seq![ParamView::Layout(f0@)]),
            Action::Clear => ActionView::Call(ActionName::Clear, seq![]),
            Action::Toggle(f0) => ActionView::Call(ActionName::Toggle, seq![ParamView::Layout(f0@)]),
            Action::Layerm(f0, f1) => ActionView::Call(ActionName::Layerm, seq![ParamView::Layer(f0@), ParamView::Macro(tokens_view(f1@))]),
            Action::Oneshotm(f0, f1) => ActionView::Call(ActionName::Oneshotm, seq![ParamView::Layer(f0@), ParamView::Macro(tokens_view(f1@))]),
            Action::Swapm(f0, f1) => ActionView::Call(ActionName::Swapm, seq![ParamView::Layer(f0@), ParamView::Macro(tokens_view(f1@))]),
            Action::Togglem(f0, f1) => ActionView::Call(ActionName::Togglem, seq![ParamView::Layer(f0@), ParamView::Macro(tokens_view(f1@))]),
            Action::Clearm(f0) => ActionView::Call(ActionName::Clearm, seq![ParamView::Macro(tokens_view(f0@))]),
            Action::Overload(f0, f1) => ActionView::Call(ActionName::Overload, seq![ParamView::Layer(f0@), ParamView::Act(f1@)]),
            Action::Overloadt(f0, f1, f2) => ActionView::Call(ActionName::Overloadt, seq![ParamView::Layer(f0@), ParamView::Act(f1@), ParamView::Timeout(*f2)]),
            Action::Overloadt2(f0, f1, f2) => ActionView::Call(ActionName::Overloadt2, seq![ParamView::Layer(f0@), ParamView::Act(f1@), ParamView::Timeout(*f2)]),
            Action::Timeout(f0, f1, f2) => ActionView::Call(ActionName::Timeout, seq![ParamView::Act(f0@), ParamView::Timeout(*f1), ParamView::Act(f2@)]),
            Action::Macro2(f0, f1, f2) => ActionView::Call(ActionName::Macro2, seq![ParamView::Timeout(*f0), ParamView::Timeout(*f1), ParamView::Macro(tokens_view(f2@))]),
            Action::Command(f0) => ActionView::Call(ActionName::Command, seq![ParamView::Command(f0@)]),
        }
    }
}

/// Reads a macro argument.
pub fn macro_arg(p: &str) -> (r: Result<Vec<MacroToken>, ParseError>)
    ensures
        result_view(r, |v: Vec<MacroToken>| tokens_view(v@)) == macro_arg_spec(p@),
{
    let cs = chars_of(p);
    if cs.len() == 1 {
        let t = MacroToken::Text(p.to_owned());
        let v = vec![t];
        assert(tokens_view(v@) =~= seq![t@]);
        return Ok(v);
    }
    if let Some(t) = MacroToken::try_into_combination(p) {
        let v = vec![t];
        assert(tokens_view(v@) =~= seq![t@]);
        return Ok(v);
    }
    let open = ['m', 'a', 'c', 'r', 'o', '('];
    let close = [')'];
    assert(open@ =~= macro_word().push('('));
    assert(close@ =~= closing());
    match strip_wrap_str(p, &cs, &open, &close) {
        Some(body) => parse_macro(body),
        None => Err(ParseError::InvalidIdent(p.to_owned())),
    }
}

/// Converts one argument for a parameter of kind `k`.
pub fn convert(k: ParamKind, p: &str) -> (r: Result<Param, ParseError>)
    ensures
        result_view(r, |x: Param| x@) == convert_spec(k, p@),
        r is Ok ==> kind_of(r->Ok_0@) == k,
{
    match k {
        ParamKind::LayerName => if is_valid_ident(p) {
            Ok(Param::Layer(p.to_owned()))
        } else {
            Err(ParseError::InvalidIdent(p.to_owned()))
        },
        ParamKind::LayoutName => Ok(Param::Layout(p.to_owned())),
        ParamKind::MacroSeq => match macro_arg(p) {
            Ok(m) => Ok(Param::Macro(m)),
            Err(e) => Err(e),
        },
        ParamKind::Timeout => match parse_u16(p) {
            Ok(t) => Ok(Param::Timeout(t)),
            Err(e) => Err(ParseError::InvalidInt(e)),
        },
        ParamKind::Command => Ok(Param::Command(p.to_owned())),
        ParamKind::NestedAction => match KeydExpr::parse(p) {
            Ok(e) => Ok(Param::Act(e)),
            Err(e) => Err(e),
        },
    }
}

/// Converts the arguments of `a` in order, stopping at the first failure.
pub fn convert_pieces(a: ActionName, pieces: &Vec<&str>) -> (r: Result<Vec<Param>, ParseError>)
    requires
        pieces@.len() == params_of(a).len(),
    ensures
        result_view(r, |v: Vec<Param>| param_views(v@)) == convert_all(
            params_of(a),
            str_views(pieces@),
        ),
        r is Ok ==> r->Ok_0@.len() == params_of(a).len() && forall|i: int|
            0 <= i < params_of(a).len() ==> kind_of(#[trigger] r->Ok_0@[i]@) == params_of(a)[i],
{
    let ghost ks = params_of(a);
    let ghost ps = str_views(pieces@);
    let kinds = a.params();
    let n = kinds.len();
    let mut out: Vec<Param> = Vec::new();
    let mut i: usize = 0;
    assert(ks.skip(0) =~= ks && ps.skip(0) =~= ps);
    assert(param_views(out@) =~= Seq::<ParamView>::empty());
    proof {
        match convert_all(ks, ps) {
            Ok(x) => assert(Seq::<ParamView>::empty() + x =~= x),
            Err(_) => {},
        }
    }
    while i < n
        invariant
            n == ks.len(),
            ks == params_of(a),
            kinds@ == ks,
            ps == str_views(pieces@),
            ps.len() == n,
            i <= n,
            out@.len() == i,
            forall|j: int| 0 <= j < i ==> kind_of(#[trigger] out@[j]@) == ks[j],
            convert_all(ks, ps) == prepend(
                param_views(out@),
                convert_all(ks.skip(i as int), ps.skip(i as int)),
            ),
        decreases n - i,
    {
        let k = kinds[i];
        assert(ps[i as int] == pieces@[i as int]@);
        let ghost rest = convert_all(ks.skip(i + 1), ps.skip(i + 1));
        assert(ks.skip(i as int).drop_first() =~= ks.skip(i + 1));
        assert(ps.skip(i as int).drop_first() =~= ps.skip(i + 1));
        match convert(k, pieces[i]) {
            Ok(v) => {
                let ghost d = param_views(out@);
                out.push(v);
                assert(param_views(out@) =~= d.push(v@));
                proof {
                    match rest {
                        Ok(x) => assert(d + (seq![v@] + x) =~= d.push(v@) + x),
                        Err(_) => {},
                    }
                }
            },
            Err(e) => {
                return Err(e);
            },
        }
        i = i + 1;
    }
    assert(ks.skip(n as int) =~= Seq::<ParamKind>::empty());
    assert(param_views(out@) + Seq::<ParamView>::empty() =~= param_views(out@));
    Ok(out)
}

/// The typed action of `a` from its converted arguments.
pub fn build(a: ActionName, ps: Vec<Param>) -> (r: Action)
    requires
        ps@.len() == params_of(a).len(),
        forall|i: int| 0 <= i < ps@.len() ==> kind_of(#[trigger] ps@[i]@) == params_of(a)[i],
    ensures
        r@ == ActionView::Call(a, param_views(ps@)),
{
    let ghost given = ps@;
    let mut ps = ps;
    proof {
        if given.len() > 0 {
            assert(kind_of(given[0]@) == params_of(a)[0]);
        }
        if given.len() > 1 {
            assert(kind_of(given[1]@) == params_of(a)[1]);
        }
        if given.len() > 2 {
            assert(kind_of(given[2]@) == params_of(a)[2]);
        }
    }
    // The precondition fixes each argument's variant, so the fallback arms
    // below cannot be reached.
    match a {
        ActionName::Layer => {
            let p0 = ps.remove(0);
            assert(param_views(given) =~= seq![p0@]);
            match p0 {
                Param::Layer(f0) => Action::Layer(f0),
                _ => {
                    proof {
                        assert(false);
                    }
                    Action::Noop
                },
            }
        },
        ActionName::Oneshot => {
            let p0 = ps.remove(0);
            assert(param_views(given) =~= seq![p0@]);
            match p0 {
                Param::Layer(f0) => Action::Oneshot(f0),
                _ => {
                    proof {
                        assert(false);
                    }
                    Action::Noop
                },
            }
        },
        ActionName::Swap => {
            let p0 = ps.remove(0);
            assert(param_views(given) =~= seq![p0@]);
            match p0 {
                Param::Layer(f0) => Action::Swap(f0),
                _ => {
                    proof {
                        assert(false);
                    }
                    Action::Noop
                },
            }
        },
        ActionName::SetLayout => {
            let p0 = ps.remove(0);
            assert(param_views(given) =~= seq![p0@]);
            match p0 {
                Param::Layout(f0) => Action::SetLayout(f0),
                _ => {
                    proof {
                        assert(false);
                    }
                    Action::Noop
                },
            }
        },
        ActionName::Clear => {
            assert(param_views(ps@) =~= Seq::<ParamView>::empty());
            Action::Clear
        },
        ActionName::Toggle => {
            let p0 = ps.remove(0);
            assert(param_views(given) =~= seq![p0@]);
            match p0 {
                Param::Layout(f0) => Action::Toggle(f0),
                _ => {
                    proof {
                        assert(false);
                    }
                    Action::Noop
                },
            }
        },
        ActionName::Layerm => {
            let p0 = ps.remove(0);
            let p1 = ps.remove(0);
            assert(param_views(given) =~= seq![p0@, p1@]);
            match (p0, p1) {
                (Param::Layer(f0), Param::Macro(f1)) => Action::Layerm(f0, f1),
                _ => {
                    proof {
                        assert(false);
                    }
                    Action::Noop
                },
            }
        },
        ActionName::Oneshotm => {
            let p0 = ps.remove(0);
            let p1 = ps.remove(0);
            assert(param_views(given) =~= seq![p0@, p1@]);
            match (p0, p1) {
                (Param::Layer(f0), Param::Macro(f1)) => Action::Oneshotm(f0, f1),
                _ => {
                    proof {
                        assert(false);
                    }
                    Action::Noop
                },
            }
        },
        ActionName::Swapm => {
            let p0 = ps.remove(0);
            let p1 = ps.remove(0);
            assert(param_views(given) =~= seq![p0@, p1@]);
            match (p0, p1) {
                (Param::Layer(f0), Param::Macro(f1)) => Action::Swapm(f0, f1),
                _ => {
                    proof {
                        assert(false);
                    }
                    Action::Noop
                },
            }
        },
        ActionName::Togglem => {
            let p0 = ps.remove(0);
            let p1 = ps.remove(0);
            assert(param_views(given) =~= seq![p0@, p1@]);
            match (p0, p1) {
                (Param::Layer(f0), Param::Macro(f1)) => Action::Togglem(f0, f1),
                _ => {
                    proof {
                        assert(false);
                    }
                    Action::Noop
                },
            }
        },
        ActionName::Clearm => {
            let p0 = ps.remove(0);
            assert(param_views(given) =~= seq![p0@]);
            match p0 {
                Param::Macro(f0) => Action::Clearm(f0),
                _ => {
                    proof {
                        assert(false);
                    }
                    Action::Noop
                },
            }
        },
        ActionName::Overload => {
            let p0 = ps.remove(0);
            let p1 = ps.remove(0);
            assert(param_views(given) =~= seq![p0@, p1@]);
            match (p0, p1) {
                (Param::Layer(f0), Param::Act(f1)) => Action::Overload(f0, f1),
                _ => {
                    proof {
                        assert(false);
                    }
                    Action::Noop
                },
            }
        },
        ActionName::Overloadt => {
            let p0 = ps.remove(0);
            let p1 = ps.remove(0);
            let p2 = ps.remove(0);
            assert(param_views(given) =~= seq![p0@, p1@, p2@]);
            match (p0, p1, p2) {
                (Param::Layer(f0), Param::Act(f1), Param::Timeout(f2)) => Action::Overloadt(f0, f1, f2),
                _ => {
                    proof {
                        assert(false);
                    }
                    Action::Noop
                },
            }
        },
        ActionName::Overloadt2 => {
            let p0 = ps.remove(0);
            let p1 = ps.remove(0);
            let p2 = ps.remove(0);
            assert(param_views(given) =~= seq![p0@, p1@, p2@]);
            match (p0, p1, p2) {
                (Param::Layer(f0), Param::Act(f1), Param::Timeout(f2)) => Action::Overloadt2(f0, f1, f2),
                _ => {
                    proof {
                        assert(false);
                    }
                    Action::Noop
                },
            }
        },
        ActionName::Timeout => {
            let p0 = ps.remove(0);
            let p1 = ps.remove(0);
            let p2 = ps.remove(0);
            assert(param_views(given) =~= seq![p0@, p1@, p2@]);
            match (p0, p1, p2) {
                (Param::Act(f0), Param::Timeout(f1), Param::Act(f2)) => Action::Timeout(f0, f1, f2),
                _ => {
                    proof {
                        assert(false);
                    }
                    Action::Noop
                },
            }
        },
        ActionName::Macro2 => {
            let p0 = ps.remove(0);
            let p1 = ps.remove(0);
            let p2 = ps.remove(0);
            assert(param_views(given) =~= seq![p0@, p1@, p2@]);
            match (p0, p1, p2) {
                (Param::Timeout(f0), Param::Timeout(f1), Param::Macro(f2)) => Action::Macro2(f0, f1, f2),
                _ => {
                    proof {
                        assert(false);
                    }
                    Action::Noop
                },
            }
        },
        ActionName::Command => {
            let p0 = ps.remove(0);
            assert(param_views(given) =~= seq![p0@]);
            match p0 {
                Param::Command(f0) => Action::Command(f0),
                _ => {
                    proof {
                        assert(false);
                    }
                    Action::Noop
                },
            }
        },
    }
}

impl Action {
    /// Reads `s` by the full grammar.
    pub fn parse(s: &str) -> (r: Result<Action, ParseError>)
        ensures
            result_view(r, |a: Action| a@) == action_spec(s@),
    {
        let cs = chars_of(s);
        if chars_valid_ident(&cs) {
            return Ok(Action::Key(s.to_owned()));
        }
        let (name, args) = match call_parts_str(s, &cs) {
            Some(p) => p,
            None => return Err(ParseError::InvalidIdent(s.to_owned())),
        };
        let ncs = chars_of(name);
        assert(ncs@.subrange(0, ncs@.len() as int) =~= name@);
        let a = match lookup(&ncs, 0, ncs.len()) {
            Some(a) => a,
            None => return Err(ParseError::InvalidCall(name.to_owned())),
        };
        let n = a.params().len();
        let acs = chars_of(args);
        let pieces: Vec<&str> = if n == 0 {
            if acs.len() != 0 {
                return Err(ParseError::BadArgs(name.to_owned(), args.to_owned()));
            }
            let v: Vec<&str> = Vec::new();
            assert(str_views(v@) =~= Seq::<Seq<char>>::empty());
            v
        } else {
            let p = split_str(args, &acs, ',');
            if p.len() != n {
                return Err(ParseError::BadArgs(name.to_owned(), args.to_owned()));
            }
            p
        };
        match convert_pieces(a, &pieces) {
            Ok(params) => Ok(build(a, params)),
            Err(e) => Err(e),
        }
    }
}

} // verus!
