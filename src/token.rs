//! Key identifiers and the single tokens of a macro body.
use vstd::prelude::*;
use crate::text::{
    all_alnum, char_is_punct, chars_all_alnum, chars_of, is_alnum, is_punct, lemma_split_len,
    parse_u16, split, split_str, str_views, u16_text, views,
};

verus! {

/// A bare key name: non-empty, and either all ASCII letters and digits or a
/// single punctuation character.
pub open spec fn valid_ident(s: Seq<char>) -> bool {
    s.len() > 0 && (all_alnum(s) || (s.len() == 1 && is_punct(s[0])))
}

/// Every non-empty string of ASCII letters and digits is a key name.
pub proof fn alnum_is_ident(s: Seq<char>)
    requires
        s.len() > 0,
        all_alnum(s),
    ensures
        valid_ident(s),
{
}

/// A single character is a key name exactly when it is an ASCII letter or
/// digit or one of the punctuation keys.
pub proof fn single_char_ident(c: char)
    ensures
        valid_ident(seq![c]) == (is_alnum(c) || is_punct(c)),
{
    let s = seq![c];
    assert(s[0] == c);
    if is_alnum(c) {
        assert(all_alnum(s));
    }
}

/// A modifier of a key combination: `A`, `C`, `M` or `S`.
pub open spec fn is_modifier(p: Seq<char>) -> bool {
    p.len() == 1 && (p[0] == 'A' || p[0] == 'C' || p[0] == 'M' || p[0] == 'S')
}

/// One step of a macro.
pub enum MacroToken {
    Key(String),
    /// Modifiers, then the key they apply to.
    Combination(Vec<String>, String),
    Text(String),
    /// Keys held down together.
    Hold(Vec<String>),
    Timeout(u16),
}

/// The abstract form of a [`MacroToken`].
pub enum TokenView {
    Key(Seq<char>),
    Combination(Seq<Seq<char>>, Seq<char>),
    Text(Seq<char>),
    Hold(Seq<Seq<char>>),
    Timeout(u16),
}

impl View for MacroToken {
    type V = TokenView;

    open spec fn view(&self) -> TokenView {
        match self {
            MacroToken::Key(s) => TokenView::Key(s@),
            MacroToken::Combination(m, k) => TokenView::Combination(views(m@), k@),
            MacroToken::Text(s) => TokenView::Text(s@),
            MacroToken::Hold(ks) => TokenView::Hold(views(ks@)),
            MacroToken::Timeout(t) => TokenView::Timeout(*t),
        }
    }
}

/// `s` read as modifiers and a key joined by `-`, where it contains a `-`.
pub open spec fn combination_of(s: Seq<char>) -> Option<TokenView> {
    let parts = split(s, '-');
    if parts.len() >= 2 && valid_ident(parts.last()) && (forall|i: int|
        0 <= i < parts.len() - 1 ==> is_modifier(#[trigger] parts[i])) {
        Some(TokenView::Combination(parts.drop_last(), parts.last()))
    } else {
        None
    }
}

/// What a single macro token is, by the first rule that applies: a key, a
/// combination, a hold of `+`-joined keys, a 16-bit number, else literal text.
pub open spec fn classify_spec(s: Seq<char>) -> TokenView {
    let holds = split(s, '+');
    if valid_ident(s) {
        TokenView::Key(s)
    } else if combination_of(s) is Some {
        combination_of(s)->Some_0
    } else if forall|i: int| 0 <= i < holds.len() ==> valid_ident(#[trigger] holds[i]) {
        TokenView::Hold(holds)
    } else if u16_text(s) is Some {
        TokenView::Timeout(u16_text(s)->Some_0)
    } else {
        TokenView::Text(s)
    }
}

/// Whether the characters `cs` form a key name.
pub fn chars_valid_ident(cs: &Vec<char>) -> (r: bool)
    ensures
        r == valid_ident(cs@),
{
    if cs.len() == 0 {
        return false;
    }
    chars_all_alnum(cs) || (cs.len() == 1 && char_is_punct(cs[0]))
}

/// Whether `s` is a key name.
pub fn is_valid_ident(s: &str) -> (r: bool)
    ensures
        r == valid_ident(s@),
{
    let cs = chars_of(s);
    chars_valid_ident(&cs)
}

/// Owned copies of the pieces.
pub fn to_strings(v: &Vec<&str>) -> (r: Vec<String>)
    ensures
        views(r@) == str_views(v@),
{
    let mut r: Vec<String> = Vec::new();
    let mut i: usize = 0;
    while i < v.len()
        invariant
            i <= v@.len(),
            views(r@) == str_views(v@).subrange(0, i as int),
        decreases v.len() - i,
    {
        let p: &str = v[i];
        let o = p.to_owned();
        assert(str_views(v@)[i as int] == o@);
        let ghost old_r = r@;
        r.push(o);
        assert(views(r@) =~= views(old_r).push(o@));
        i = i + 1;
        assert(views(r@) =~= str_views(v@).subrange(0, i as int));
    }
    assert(str_views(v@).subrange(0, i as int) =~= str_views(v@));
    r
}

impl MacroToken {
    /// `s` as modifiers and a key joined by `-`, if it has that shape.
    pub fn try_into_combination(s: &str) -> (r: Option<MacroToken>)
        ensures
            r is None <==> combination_of(s@) is None,
            r is Some ==> combination_of(s@) == Some(r->Some_0@),
    {
        let cs = chars_of(s);
        let parts = split_str(s, &cs, '-');
        let ghost pv = str_views(parts@);
        proof {
            lemma_split_len(s@, '-');
        }
        let n = parts.len();
        if n < 2 {
            return None;
        }
        assert(pv[n - 1] == parts@[n - 1]@);
        if !is_valid_ident(parts[n - 1]) {
            return None;
        }
        let mut i: usize = 0;
        while i < n - 1
            invariant
                n == parts@.len(),
                n >= 2,
                pv == str_views(parts@),
                pv == split(s@, '-'),
                i <= n - 1,
                forall|j: int| 0 <= j < i ==> is_modifier(#[trigger] pv[j]),
            decreases n - 1 - i,
        {
            let p = chars_of(parts[i]);
            assert(pv[i as int] == p@);
            if !(p.len() == 1 && (p[0] == 'A' || p[0] == 'C' || p[0] == 'M' || p[0] == 'S')) {
                return None;
            }
            i = i + 1;
        }
        let all = to_strings(&parts);
        let mut mods = all;
        let last = mods.pop().unwrap();
        assert(views(mods@) =~= pv.drop_last());
        Some(MacroToken::Combination(mods, last))
    }
}

/// Reads one macro token; every input is some token.
pub fn classify(s: &str) -> (r: MacroToken)
    ensures
        r@ == classify_spec(s@),
{
    let cs = chars_of(s);
    if chars_valid_ident(&cs) {
        return MacroToken::Key(s.to_owned());
    }
    if let Some(t) = MacroToken::try_into_combination(s) {
        return t;
    }
    let holds = split_str(s, &cs, '+');
    let ghost hv = str_views(holds@);
    let mut all_keys = true;
    let mut i: usize = 0;
    while i < holds.len()
        invariant
            i <= holds@.len(),
            hv == str_views(holds@),
            hv == split(s@, '+'),
            all_keys == (forall|j: int| 0 <= j < i ==> valid_ident(#[trigger] hv[j])),
        decreases holds.len() - i,
    {
        assert(hv[i as int] == holds@[i as int]@);
        if !is_valid_ident(holds[i]) {
            all_keys = false;
        }
        i = i + 1;
    }
    if all_keys {
        return MacroToken::Hold(to_strings(&holds));
    }
    match parse_u16(s) {
        Ok(t) => MacroToken::Timeout(t),
        Err(_) => MacroToken::Text(s.to_owned()),
    }
}

} // verus!
