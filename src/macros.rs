//! The body of a `macro(...)` expression: a sequence of tokens, with nested
//! `macro(...)` blocks flattened into it.
use vstd::prelude::*;
use vstd::string::StrSliceExecFns;
use crate::error::ParseError;
use crate::text::{chars_eq, chars_of};
use crate::token::{classify, classify_spec, MacroToken, TokenView};

verus! {

/// The word that opens a nested block when `(` follows it.
pub open spec fn macro_word() -> Seq<char> {
    seq!['m', 'a', 'c', 'r', 'o']
}

/// The abstract form of a sequence of tokens.
pub open spec fn tokens_view(v: Seq<MacroToken>) -> Seq<TokenView> {
    v.map_values(|t: MacroToken| t@)
}

/// The tokens of a macro body.
pub open spec fn macro_spec(s: Seq<char>) -> Seq<TokenView>
    decreases s.len(), 1int, 0int,
{
    scan(s, 0, 0, 0)
}

/// The tokens that scanning `s` yields from position `i` on, with the word
/// in progress starting at `start` and `depth` open nested blocks.
/// A space ends a word; `macro(` opens a block; `)` closes the block when one
/// is open at the outermost level, whose text is then read on its own and
/// flattened in; any other `)` stays in the word and lowers the depth.
pub open spec fn scan(s: Seq<char>, i: int, start: int, depth: nat) -> Seq<TokenView>
    decreases s.len(), 0int, s.len() - i,
{
    if !(0 <= start <= i) {
        Seq::empty()
    } else if i >= s.len() {
        if start < s.len() {
            seq![classify_spec(s.subrange(start, s.len() as int))]
        } else {
            Seq::empty()
        }
    } else {
        let c = s[i];
        let w = s.subrange(start, i);
        if c == ')' && depth == 1 {
            macro_spec(w) + scan(s, i + 1, i + 1, 0)
        } else if c == ')' {
            scan(s, i + 1, start, if depth > 0 { (depth - 1) as nat } else { 0 })
        } else if c == ' ' {
            if w.len() == 0 {
                scan(s, i + 1, i + 1, depth)
            } else {
                seq![classify_spec(w)] + scan(s, i + 1, i + 1, depth)
            }
        } else if c == '(' && w == macro_word() {
            scan(s, i + 1, i + 1, depth + 1)
        } else {
            scan(s, i + 1, start, depth)
        }
    }
}

/// Splits a macro body into tokens. No input is rejected.
pub fn parse_macro(arg: &str) -> (r: Result<Vec<MacroToken>, ParseError>)
    ensures
        r is Ok,
        r is Ok ==> tokens_view(r->Ok_0@) == macro_spec(arg@),
    decreases arg@.len(),
{
    let ghost s = arg@;
    let cs = chars_of(arg);
    let word = ['m', 'a', 'c', 'r', 'o'];
    assert(word@ =~= macro_word());
    let mut out: Vec<MacroToken> = Vec::new();
    let mut start: usize = 0;
    let mut depth: usize = 0;
    let mut i: usize = 0;
    assert(tokens_view(out@) + scan(s, 0, 0, 0) =~= macro_spec(s));
    while i < cs.len()
        invariant
            cs@ == s,
            s == arg@,
            word@ == macro_word(),
            start <= i <= s.len(),
            depth <= i,
            macro_spec(s) == tokens_view(out@) + scan(s, i as int, start as int, depth as nat),
        decreases cs.len() - i,
    {
        let c = cs[i];
        let ghost before = out@;
        let ghost rest = scan(s, i as int, start as int, depth as nat);
        if c == ')' && depth == 1 {
            let inner = arg.substring_char(start, i);
            let sub = parse_macro(inner);
            if let Ok(mut v) = sub {
                let ghost vv = v@;
                out.append(&mut v);
                assert(tokens_view(out@) =~= tokens_view(before) + tokens_view(vv));
            }
            start = i + 1;
            depth = 0;
        } else if c == ')' {
            if depth > 0 {
                depth = depth - 1;
            }
        } else if c == ' ' {
            if start < i {
                let t = classify(arg.substring_char(start, i));
                out.push(t);
                assert(tokens_view(out@) =~= tokens_view(before) + seq![t@]);
            }
            start = i + 1;
        } else if c == '(' && chars_eq(&cs, start, i, &word) {
            depth = depth + 1;
            start = i + 1;
        }
        i = i + 1;
        assert(macro_spec(s) =~= tokens_view(out@) + scan(
            s,
            i as int,
            start as int,
            depth as nat,
        ));
    }
    if start < cs.len() {
        let ghost before = out@;
        let t = classify(arg.substring_char(start, cs.len()));
        out.push(t);
        assert(tokens_view(out@) =~= tokens_view(before) + seq![t@]);
    }
    assert(macro_spec(s) =~= tokens_view(out@));
    Ok(out)
}

} // verus!
