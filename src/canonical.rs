//! The canonical text of an expression, in both grammars, and the laws that
//! reading it back gives the expression again.
use vstd::prelude::*;
use crate::error::ErrorView;
use crate::expr::{arg_of, closing, opening, reduced_spec, ExprView};
use crate::action::{action_spec, convert_all, convert_spec, kind_of, ActionView, ParamView};
use crate::grammar::{lookup_spec, name_chars, params_of, ActionName, ParamKind};
use crate::text::{
    all_alnum, digits_value, find_from, is_alnum, is_digit, is_ws, split, trim, u16_text,
};
use crate::token::valid_ident;

verus! {

/// The character of a decimal digit.
pub open spec fn digit_char(d: nat) -> char {
    if d == 0 {
        '0'
    } else if d == 1 {
        '1'
    } else if d == 2 {
        '2'
    } else if d == 3 {
        '3'
    } else if d == 4 {
        '4'
    } else if d == 5 {
        '5'
    } else if d == 6 {
        '6'
    } else if d == 7 {
        '7'
    } else if d == 8 {
        '8'
    } else {
        '9'
    }
}

/// The decimal digits of `n`, without leading zeros.
pub open spec fn decimal(n: nat) -> Seq<char>
    decreases n,
{
    if n < 10 {
        seq![digit_char(n)]
    } else {
        decimal(n / 10).push(digit_char(n % 10))
    }
}

/// `name(x)`.
pub open spec fn call_form(a: ActionName, x: Seq<char>) -> Seq<char> {
    opening(a) + x + closing()
}

/// The canonical text of a reduced expression.
pub open spec fn render(e: ExprView) -> Seq<char>
    decreases e,
{
    match e {
        ExprView::Key(s) => s,
        ExprView::Layer(x) => call_form(ActionName::Layer, x),
        ExprView::Oneshot(x) => call_form(ActionName::Oneshot, x),
        ExprView::Swap(x) => call_form(ActionName::Swap, x),
        ExprView::SetLayout(x) => call_form(ActionName::SetLayout, x),
        ExprView::Clear => call_form(ActionName::Clear, Seq::empty()),
        ExprView::Toggle(x) => call_form(ActionName::Toggle, x),
        ExprView::Timeout(a, t, b) => call_form(
            ActionName::Timeout,
            render(*a) + seq![','] + decimal(t as nat) + seq![','] + render(*b),
        ),
    }
}

/// The expressions whose canonical text reads back as themselves: every
/// name a key name, and no `,` in the text of a `timeout` branch, since
/// the arguments of a call are split at every `,`.
pub open spec fn canonical(e: ExprView) -> bool
    decreases e,
{
    match e {
        ExprView::Key(s) => valid_ident(s),
        ExprView::Layer(x) => valid_ident(x),
        ExprView::Oneshot(x) => valid_ident(x),
        ExprView::Swap(x) => valid_ident(x),
        ExprView::SetLayout(x) => valid_ident(x),
        ExprView::Clear => true,
        ExprView::Toggle(x) => valid_ident(x),
        ExprView::Timeout(a, t, b) => canonical(*a) && canonical(*b) && !render(*a).contains(',')
            && !render(*b).contains(','),
    }
}

proof fn lemma_digit_char(d: nat)
    requires
        d < 10,
    ensures
        is_digit(digit_char(d)),
        digit_char(d) as nat - '0' as nat == d,
{
}

proof fn lemma_decimal(n: nat)
    ensures
        decimal(n).len() > 0,
        forall|i: int| 0 <= i < decimal(n).len() ==> is_digit(#[trigger] decimal(n)[i]),
        digits_value(decimal(n)) == n,
    decreases n,
{
    if n < 10 {
        lemma_digit_char(n);
        assert(decimal(n).drop_last() =~= Seq::<char>::empty());
        assert(digits_value(Seq::<char>::empty()) == 0);
        assert(digits_value(decimal(n)) == digits_value(decimal(n).drop_last()) * 10 + (
        decimal(n).last() as nat - '0' as nat) as nat);
    } else {
        lemma_decimal(n / 10);
        lemma_digit_char(n % 10);
        assert(decimal(n).drop_last() =~= decimal(n / 10));
        assert(decimal(n).last() == digit_char(n % 10));
        assert(n == (n / 10) * 10 + n % 10) by (nonlinear_arith);
        assert(digits_value(decimal(n)) == digits_value(decimal(n / 10)) * 10 + (n % 10));
    }
}

/// The canonical text of a number reads back as that number.
proof fn lemma_decimal_u16(t: u16)
    ensures
        u16_text(decimal(t as nat)) == Some(t),
        !decimal(t as nat).contains(','),
        !is_ws(decimal(t as nat)[0]),
        !is_ws(decimal(t as nat).last()),
{
    lemma_decimal(t as nat);
}

/// A sequence that neither starts nor ends with white space is its own trim.
proof fn lemma_trim_stable(s: Seq<char>)
    requires
        s.len() > 0,
        !is_ws(s[0]),
        !is_ws(s.last()),
    ensures
        trim(s) == s,
{
}

/// Splitting at a separator that joins two parts splits each part.
proof fn lemma_split_join(x: Seq<char>, y: Seq<char>, c: char)
    ensures
        split(x + seq![c] + y, c) == split(x, c) + split(y, c),
    decreases y.len(),
{
    let s = x + seq![c] + y;
    if y.len() == 0 {
        assert(s.drop_last() =~= x);
        assert(s =~= x.push(c));
        assert(split(x, c) + split(y, c) =~= split(x, c).push(Seq::empty()));
    } else {
        let y0 = y.drop_last();
        lemma_split_join(x, y0, c);
        assert(s.drop_last() =~= x + seq![c] + y0);
        crate::text::lemma_split_len(y0, c);
        crate::text::lemma_split_len(x, c);
        if y.last() == c {
            assert(split(x, c) + split(y, c) =~= (split(x, c) + split(y0, c)).push(Seq::empty()));
        } else {
            let p = split(x, c) + split(y0, c);
            let q = split(y0, c);
            assert(split(x, c) + split(y, c) =~= p.update(p.len() - 1, p.last().push(y.last())));
        }
    }
}

/// A sequence without the separator is one piece.
proof fn lemma_split_single(x: Seq<char>, c: char)
    requires
        !x.contains(c),
    ensures
        split(x, c) == seq![x],
    decreases x.len(),
{
    if x.len() > 0 {
        let x0 = x.drop_last();
        assert(!x0.contains(c)) by {
            if x0.contains(c) {
                let i = choose|i: int| 0 <= i < x0.len() && x0[i] == c;
                assert(x[i] == c);
            }
        }
        lemma_split_single(x0, c);
        assert(x[x.len() - 1] != c);
        assert(x0.push(x.last()) =~= x);
    } else {
        assert(x =~= Seq::<char>::empty());
    }
}

/// The ends of a key name are not white space.
proof fn lemma_ident_ends(x: Seq<char>)
    requires
        valid_ident(x),
    ensures
        !is_ws(x[0]),
        !is_ws(x.last()),
{
    if all_alnum(x) {
        assert(is_alnum(x[0]));
        assert(is_alnum(x[x.len() - 1]));
    }
}

/// The text of a call is no key name.
proof fn lemma_call_not_ident(a: ActionName, x: Seq<char>)
    ensures
        !valid_ident(call_form(a, x)),
{
    let s = call_form(a, x);
    let k = name_chars(a).len() as int;
    assert(s[k] == '(');
    assert(!is_alnum(s[k]));
}

/// A call's argument is found again between its parentheses.
proof fn lemma_arg_of_call(a: ActionName, x: Seq<char>)
    ensures
        arg_of(call_form(a, x), a) == Some(trim(x)),
{
    let s = call_form(a, x);
    let o = opening(a);
    assert(s.subrange(0, o.len() as int) =~= o);
    assert(s.subrange(s.len() - 1, s.len() as int) =~= closing());
    assert(s.subrange(o.len() as int, s.len() - 1) =~= x);
}

/// Text that differs from the opening of `b` at `k` is no call of `b`.
proof fn lemma_other_call(s: Seq<char>, b: ActionName, k: int)
    requires
        0 <= k < opening(b).len(),
        k < s.len(),
        s[k] != opening(b)[k],
    ensures
        arg_of(s, b) is None,
{
    let o = opening(b);
    if o.len() <= s.len() && s.subrange(0, o.len() as int) == o {
        assert(s.subrange(0, o.len() as int)[k] == s[k]);
    }
}

/// Canonical text is not empty and has no white space at its ends.
proof fn lemma_render_ends(e: ExprView)
    requires
        canonical(e),
    ensures
        render(e).len() > 0,
        !is_ws(render(e)[0]),
        !is_ws(render(e).last()),
{
    match e {
        ExprView::Key(s) => lemma_ident_ends(s),
        _ => {},
    }
}

proof fn lemma_reparse_layer(x: Seq<char>)
    requires
        valid_ident(x),
    ensures
        reduced_spec(call_form(ActionName::Layer, x)) == Ok::<ExprView, ErrorView>(ExprView::Layer(x)),
{
    let s = call_form(ActionName::Layer, x);
    lemma_call_not_ident(ActionName::Layer, x);
    lemma_arg_of_call(ActionName::Layer, x);
    lemma_ident_ends(x);
    lemma_trim_stable(x);
}

proof fn lemma_reparse_oneshot(x: Seq<char>)
    requires
        valid_ident(x),
    ensures
        reduced_spec(call_form(ActionName::Oneshot, x)) == Ok::<ExprView, ErrorView>(ExprView::Oneshot(x)),
{
    let s = call_form(ActionName::Oneshot, x);
    lemma_call_not_ident(ActionName::Oneshot, x);
    lemma_other_call(s, ActionName::Layer, 0);
    lemma_arg_of_call(ActionName::Oneshot, x);
    lemma_ident_ends(x);
    lemma_trim_stable(x);
}

proof fn lemma_reparse_swap(x: Seq<char>)
    requires
        valid_ident(x),
    ensures
        reduced_spec(call_form(ActionName::Swap, x)) == Ok::<ExprView, ErrorView>(ExprView::Swap(x)),
{
    let s = call_form(ActionName::Swap, x);
    lemma_call_not_ident(ActionName::Swap, x);
    lemma_other_call(s, ActionName::Layer, 0);
    lemma_other_call(s, ActionName::Oneshot, 0);
    lemma_arg_of_call(ActionName::Swap, x);
    lemma_ident_ends(x);
    lemma_trim_stable(x);
}

proof fn lemma_reparse_setlayout(x: Seq<char>)
    requires
        valid_ident(x),
    ensures
        reduced_spec(call_form(ActionName::SetLayout, x)) == Ok::<ExprView, ErrorView>(ExprView::SetLayout(x)),
{
    let s = call_form(ActionName::SetLayout, x);
    lemma_call_not_ident(ActionName::SetLayout, x);
    lemma_other_call(s, ActionName::Layer, 0);
    lemma_other_call(s, ActionName::Oneshot, 0);
    lemma_other_call(s, ActionName::Swap, 1);
    lemma_arg_of_call(ActionName::SetLayout, x);
    lemma_ident_ends(x);
    lemma_trim_stable(x);
}

proof fn lemma_reparse_toggle(x: Seq<char>)
    requires
        valid_ident(x),
    ensures
        reduced_spec(call_form(ActionName::Toggle, x)) == Ok::<ExprView, ErrorView>(ExprView::Toggle(x)),
{
    let s = call_form(ActionName::Toggle, x);
    lemma_call_not_ident(ActionName::Toggle, x);
    lemma_other_call(s, ActionName::Layer, 0);
    lemma_other_call(s, ActionName::Oneshot, 0);
    lemma_other_call(s, ActionName::Swap, 0);
    lemma_other_call(s, ActionName::SetLayout, 0);
    lemma_other_call(s, ActionName::Clear, 0);
    lemma_arg_of_call(ActionName::Toggle, x);
    lemma_ident_ends(x);
    lemma_trim_stable(x);
}

proof fn lemma_reparse_clear()
    ensures
        reduced_spec(call_form(ActionName::Clear, Seq::empty())) == Ok::<ExprView, ErrorView>(
            ExprView::Clear,
        ),
{
    let s = call_form(ActionName::Clear, Seq::empty());
    lemma_call_not_ident(ActionName::Clear, Seq::empty());
    lemma_other_call(s, ActionName::Layer, 0);
    lemma_other_call(s, ActionName::Oneshot, 0);
    lemma_other_call(s, ActionName::Swap, 0);
    lemma_other_call(s, ActionName::SetLayout, 0);
    lemma_arg_of_call(ActionName::Clear, Seq::empty());
    assert(trim(Seq::<char>::empty()) =~= Seq::<char>::empty());
}

/// The pieces of the arguments of a canonical `timeout`.
proof fn lemma_timeout_pieces(ra: Seq<char>, d: Seq<char>, rb: Seq<char>)
    requires
        !ra.contains(','),
        !d.contains(','),
        !rb.contains(','),
    ensures
        split(ra + seq![','] + d + seq![','] + rb, ',') == seq![ra, d, rb],
{
    let inner = ra + seq![','] + d + seq![','] + rb;
    assert(inner =~= ra + seq![','] + (d + seq![','] + rb));
    lemma_split_join(ra, d + seq![','] + rb, ',');
    lemma_split_join(d, rb, ',');
    lemma_split_single(ra, ',');
    lemma_split_single(d, ',');
    lemma_split_single(rb, ',');
    assert(split(inner, ',') =~= seq![ra, d, rb]);
}

/// The shape of the canonical text of a `timeout`: a call of nothing before
/// it in the grammar, whose arguments split into the branches' texts and the
/// time's digits.
proof fn lemma_timeout_text(a: ExprView, t: u16, b: ExprView)
    requires
        canonical(a),
        canonical(b),
        !render(a).contains(','),
        !render(b).contains(','),
    ensures
        ({
            let s = call_form(
                ActionName::Timeout,
                render(a) + seq![','] + decimal(t as nat) + seq![','] + render(b),
            );
            let p = split(
                render(a) + seq![','] + decimal(t as nat) + seq![','] + render(b),
                ',',
            );
            &&& !valid_ident(s)
            &&& arg_of(s, ActionName::Layer) is None
            &&& arg_of(s, ActionName::Oneshot) is None
            &&& arg_of(s, ActionName::Swap) is None
            &&& arg_of(s, ActionName::SetLayout) is None
            &&& arg_of(s, ActionName::Clear) is None
            &&& arg_of(s, ActionName::Toggle) is None
            &&& arg_of(s, ActionName::Timeout) == Some(
                render(a) + seq![','] + decimal(t as nat) + seq![','] + render(b),
            )
            &&& p.len() == 3
            &&& trim(p[0]) == render(a)
            &&& trim(p[1]) == decimal(t as nat)
            &&& trim(p[2]) == render(b)
            &&& u16_text(decimal(t as nat)) == Some(t)
        }),
{
    let ra = render(a);
    let rb = render(b);
    let d = decimal(t as nat);
    let inner = ra + seq![','] + d + seq![','] + rb;
    let s = call_form(ActionName::Timeout, inner);
    lemma_call_not_ident(ActionName::Timeout, inner);
    lemma_other_call(s, ActionName::Layer, 0);
    lemma_other_call(s, ActionName::Oneshot, 0);
    lemma_other_call(s, ActionName::Swap, 0);
    lemma_other_call(s, ActionName::SetLayout, 0);
    lemma_other_call(s, ActionName::Clear, 0);
    lemma_other_call(s, ActionName::Toggle, 1);
    lemma_arg_of_call(ActionName::Timeout, inner);
    lemma_render_ends(a);
    lemma_render_ends(b);
    lemma_decimal_u16(t);
    assert(inner[0] == ra[0]);
    assert(inner.last() == rb.last());
    lemma_trim_stable(inner);
    lemma_trim_stable(ra);
    lemma_trim_stable(rb);
    lemma_trim_stable(d);
    lemma_timeout_pieces(ra, d, rb);
}

proof fn lemma_reparse_timeout(a: ExprView, t: u16, b: ExprView)
    requires
        canonical(a),
        canonical(b),
        !render(a).contains(','),
        !render(b).contains(','),
        reduced_spec(render(a)) == Ok::<ExprView, ErrorView>(a),
        reduced_spec(render(b)) == Ok::<ExprView, ErrorView>(b),
    ensures
        reduced_spec(render(ExprView::Timeout(Box::new(a), t, Box::new(b)))) == Ok::<
            ExprView,
            ErrorView,
        >(ExprView::Timeout(Box::new(a), t, Box::new(b))),
{
    lemma_timeout_text(a, t, b);
    let e = ExprView::Timeout(Box::new(a), t, Box::new(b));
    assert(render(e) == call_form(
        ActionName::Timeout,
        render(a) + seq![','] + decimal(t as nat) + seq![','] + render(b),
    ));
}

/// Reading the canonical text of a reduced expression gives the expression
/// back, for every expression whose names are key names and whose `timeout`
/// branches have no `,` in their text.
pub proof fn reparse_render(e: ExprView)
    requires
        canonical(e),
    ensures
        reduced_spec(render(e)) == Ok::<ExprView, ErrorView>(e),
    decreases e,
{
    match e {
        ExprView::Key(x) => {},
        ExprView::Layer(x) => lemma_reparse_layer(x),
        ExprView::Oneshot(x) => lemma_reparse_oneshot(x),
        ExprView::Swap(x) => lemma_reparse_swap(x),
        ExprView::SetLayout(x) => lemma_reparse_setlayout(x),
        ExprView::Clear => lemma_reparse_clear(),
        ExprView::Toggle(x) => lemma_reparse_toggle(x),
        ExprView::Timeout(a, t, b) => {
            reparse_render(*a);
            reparse_render(*b);
            lemma_reparse_timeout(*a, t, *b);
        },
    }
}

/// The length, first and last character of each action's name, which tell
/// the names apart.
pub open spec fn name_shape(a: ActionName) -> (nat, char, char) {
    match a {
        ActionName::Layer => (5, 'l', 'r'),
        ActionName::Oneshot => (7, 'o', 't'),
        ActionName::Swap => (4, 's', 'p'),
        ActionName::SetLayout => (9, 's', 't'),
        ActionName::Clear => (5, 'c', 'r'),
        ActionName::Toggle => (6, 't', 'e'),
        ActionName::Layerm => (6, 'l', 'm'),
        ActionName::Oneshotm => (8, 'o', 'm'),
        ActionName::Swapm => (5, 's', 'm'),
        ActionName::Togglem => (7, 't', 'm'),
        ActionName::Clearm => (6, 'c', 'm'),
        ActionName::Overload => (8, 'o', 'd'),
        ActionName::Overloadt => (9, 'o', 't'),
        ActionName::Overloadt2 => (10, 'o', '2'),
        ActionName::Timeout => (7, 't', 't'),
        ActionName::Macro2 => (6, 'm', '2'),
        ActionName::Command => (7, 'c', 'd'),
    }
}

proof fn lemma_name_shape(a: ActionName)
    ensures
        name_chars(a).len() == name_shape(a).0,
        name_chars(a)[0] == name_shape(a).1,
        name_chars(a).last() == name_shape(a).2,
        forall|j: int| 0 <= j < name_chars(a).len() ==> #[trigger] name_chars(a)[j] != '(' && name_chars(a)[j] != ',',
{
}

/// Each action is found under its own name.
proof fn lemma_lookup_name(a: ActionName)
    ensures
        lookup_spec(name_chars(a)) == Some(a),
{
    lemma_name_shape(ActionName::Layer);
    lemma_name_shape(ActionName::Oneshot);
    lemma_name_shape(ActionName::Swap);
    lemma_name_shape(ActionName::SetLayout);
    lemma_name_shape(ActionName::Clear);
    lemma_name_shape(ActionName::Toggle);
    lemma_name_shape(ActionName::Layerm);
    lemma_name_shape(ActionName::Oneshotm);
    lemma_name_shape(ActionName::Swapm);
    lemma_name_shape(ActionName::Togglem);
    lemma_name_shape(ActionName::Clearm);
    lemma_name_shape(ActionName::Overload);
    lemma_name_shape(ActionName::Overloadt);
    lemma_name_shape(ActionName::Overloadt2);
    lemma_name_shape(ActionName::Timeout);
    lemma_name_shape(ActionName::Macro2);
    lemma_name_shape(ActionName::Command);
}

/// Pieces joined with `,` between them.
pub open spec fn join(ps: Seq<Seq<char>>) -> Seq<char>
    decreases ps.len(),
{
    if ps.len() == 0 {
        Seq::empty()
    } else if ps.len() == 1 {
        ps[0]
    } else {
        join(ps.drop_last()) + seq![','] + ps.last()
    }
}

/// The canonical text of an argument; a macro has none here.
pub open spec fn param_text(p: ParamView) -> Seq<char> {
    match p {
        ParamView::Layer(x) => x,
        ParamView::Layout(x) => x,
        ParamView::Macro(_) => Seq::empty(),
        ParamView::Timeout(t) => decimal(t as nat),
        ParamView::Command(x) => x,
        ParamView::Act(e) => render(e),
    }
}

pub open spec fn param_texts(ps: Seq<ParamView>) -> Seq<Seq<char>> {
    ps.map_values(|p: ParamView| param_text(p))
}

/// The canonical text of an expression of the full grammar: a key, or a
/// call with its arguments joined by `,`.
pub open spec fn action_text(a: ActionView) -> Seq<char> {
    match a {
        ActionView::Key(s) => s,
        ActionView::Noop => Seq::empty(),
        ActionView::Call(n, ps) => call_form(n, join(param_texts(ps))),
    }
}

/// The arguments whose canonical text reads back as themselves: no `,` in
/// the text, a layer a key name, a nested expression canonical, and no macro.
pub open spec fn canonical_param(p: ParamView) -> bool {
    !param_text(p).contains(',') && match p {
        ParamView::Layer(x) => valid_ident(x),
        ParamView::Act(e) => canonical(e),
        ParamView::Macro(_) => false,
        _ => true,
    }
}

/// The expressions of the full grammar whose canonical text reads back as
/// themselves: a key name, or a call with arguments of the kinds its action
/// takes, each canonical.
pub open spec fn canonical_action(a: ActionView) -> bool {
    match a {
        ActionView::Key(s) => valid_ident(s),
        ActionView::Noop => false,
        ActionView::Call(n, ps) => ps.len() == params_of(n).len() && forall|i: int|
            0 <= i < ps.len() ==> kind_of(#[trigger] ps[i]) == params_of(n)[i] && canonical_param(
                ps[i],
            ),
    }
}

proof fn lemma_find_at(s: Seq<char>, c: char, k: int, i: int)
    requires
        0 <= i <= k < s.len(),
        s[k] == c,
        forall|j: int| 0 <= j < k ==> s[j] != c,
    ensures
        find_from(s, c, i) == k,
    decreases k - i,
{
    if i < k {
        lemma_find_at(s, c, k, i + 1);
    }
}

proof fn lemma_split_join_all(ps: Seq<Seq<char>>)
    requires
        ps.len() >= 1,
        forall|i: int| 0 <= i < ps.len() ==> !(#[trigger] ps[i]).contains(','),
    ensures
        split(join(ps), ',') == ps,
    decreases ps.len(),
{
    if ps.len() == 1 {
        lemma_split_single(ps[0], ',');
        assert(seq![ps[0]] =~= ps);
    } else {
        let init = ps.drop_last();
        assert forall|i: int| 0 <= i < init.len() implies !(#[trigger] init[i]).contains(',') by {
            assert(init[i] == ps[i]);
        }
        lemma_split_join_all(init);
        lemma_split_join(join(init), ps.last(), ',');
        lemma_split_single(ps.last(), ',');
        assert(init + seq![ps.last()] =~= ps);
    }
}

proof fn lemma_convert_param(p: ParamView)
    requires
        canonical_param(p),
    ensures
        convert_spec(kind_of(p), param_text(p)) == Ok::<ParamView, ErrorView>(p),
{
    match p {
        ParamView::Timeout(t) => lemma_decimal_u16(t),
        ParamView::Act(e) => reparse_render(e),
        _ => {},
    }
}

proof fn lemma_convert_params(ks: Seq<ParamKind>, ps: Seq<ParamView>)
    requires
        ks.len() == ps.len(),
        forall|i: int|
            0 <= i < ps.len() ==> kind_of(#[trigger] ps[i]) == ks[i] && canonical_param(ps[i]),
    ensures
        convert_all(ks, param_texts(ps)) == Ok::<Seq<ParamView>, ErrorView>(ps),
    decreases ks.len(),
{
    if ks.len() > 0 {
        let ts = param_texts(ps);
        assert(kind_of(ps[0]) == ks[0] && canonical_param(ps[0]));
        lemma_convert_param(ps[0]);
        let rest = ps.drop_first();
        assert forall|i: int| 0 <= i < rest.len() implies kind_of(#[trigger] rest[i])
            == ks.drop_first()[i] && canonical_param(rest[i]) by {
            assert(rest[i] == ps[i + 1]);
        }
        lemma_convert_params(ks.drop_first(), rest);
        assert(ts.drop_first() =~= param_texts(rest));
        assert(seq![ps[0]] + rest =~= ps);
    } else {
        assert(ps =~= Seq::<ParamView>::empty());
    }
}

/// Reading the canonical text of an expression of the full grammar gives the
/// expression back, for every key name and every call whose arguments have
/// the kinds of its action, hold no macro, and have no `,` in their text.
pub proof fn reparse_action_text(a: ActionView)
    requires
        canonical_action(a),
    ensures
        action_spec(action_text(a)) == Ok::<ActionView, ErrorView>(a),
{
    match a {
        ActionView::Key(_) => {},
        ActionView::Noop => {},
        ActionView::Call(n, ps) => {
            let ts = param_texts(ps);
            let j = join(ts);
            let s = call_form(n, j);
            lemma_call_not_ident(n, j);
            lemma_name_shape(n);
            let r = s.drop_last();
            let k = name_chars(n).len() as int;
            assert(r =~= opening(n) + j);
            assert(r[k] == '(');
            assert forall|i: int| 0 <= i < k implies r[i] != '(' by {
                assert(r[i] == name_chars(n)[i]);
            }
            lemma_find_at(r, '(', k, 0);
            assert(r.subrange(0, k) =~= name_chars(n));
            assert(r.subrange(k + 1, r.len() as int) =~= j);
            lemma_lookup_name(n);
            if ps.len() > 0 {
                assert forall|i: int| 0 <= i < ts.len() implies !(#[trigger] ts[i]).contains(',') by {
                    assert(canonical_param(ps[i]));
                }
                lemma_split_join_all(ts);
            }
            lemma_convert_params(params_of(n), ps);
        },
    }
}

} // verus!
