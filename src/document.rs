//! Statements, sections, and the document: lines grouped under `[name]`
//! headers, each binding written `key = expression`.
use vstd::prelude::*;
use vstd::string::StrSliceExecFns;
use crate::action::{action_spec, Action, ActionView};
use crate::error::{result_view, ErrorView, ParseError};
use crate::text::{
    all_lower, chars_all_lower, chars_of, find, find_char, strip_wrap, strip_wrap_str, trim,
    trim_str, views,
};

verus! {

/// A line of a section.
pub enum KeydStatement {
    /// A wildcard; no line is read as one yet.
    Star,
    /// A scope and an id; no line is read as one yet.
    SetId(String, String),
    /// A scope and an id; no line is read as one yet.
    UnsetId(String, String),
    /// A key bound to an expression.
    Define(String, Action),
}

/// The abstract form of a [`KeydStatement`].
pub enum StatementView {
    Star,
    SetId(Seq<char>, Seq<char>),
    UnsetId(Seq<char>, Seq<char>),
    Define(Seq<char>, ActionView),
}

impl View for KeydStatement {
    type V = StatementView;

    open spec fn view(&self) -> StatementView {
        match self {
            KeydStatement::Star => StatementView::Star,
            KeydStatement::SetId(a, b) => StatementView::SetId(a@, b@),
            KeydStatement::UnsetId(a, b) => StatementView::UnsetId(a@, b@),
            KeydStatement::Define(k, e) => StatementView::Define(k@, e@),
        }
    }
}

/// A binding of `left` to the expression `right`: `left` must be lower-case
/// letters only.
pub open spec fn statement_spec(left: Seq<char>, right: Seq<char>) -> Result<
    StatementView,
    ErrorView,
> {
    if !all_lower(left) {
        Err(ErrorView::InvalidIdent(left))
    } else {
        match action_spec(right) {
            Ok(e) => Ok(StatementView::Define(left, e)),
            Err(e) => Err(e),
        }
    }
}

impl KeydStatement {
    /// Reads the binding of `left` to `right`.
    pub fn parse(left: &str, right: &str) -> (r: Result<KeydStatement, ParseError>)
        ensures
            result_view(r, |s: KeydStatement| s@) == statement_spec(left@, right@),
    {
        let lcs = chars_of(left);
        if !chars_all_lower(&lcs) {
            return Err(ParseError::InvalidIdent(left.to_owned()));
        }
        match Action::parse(right) {
            Ok(e) => Ok(KeydStatement::Define(left.to_owned(), e)),
            Err(e) => Err(e),
        }
    }
}

/// A named group of statements.
pub struct KeydSection {
    pub name: String,
    pub content: Vec<KeydStatement>,
}

/// The abstract form of a [`KeydSection`].
pub struct SectionView {
    pub name: Seq<char>,
    pub content: Seq<StatementView>,
}

impl View for KeydSection {
    type V = SectionView;

    open spec fn view(&self) -> SectionView {
        SectionView { name: self.name@, content: self.content@.map_values(|s: KeydStatement| s@) }
    }
}

/// The abstract form of a sequence of sections.
pub open spec fn sections_view(v: Seq<KeydSection>) -> Seq<SectionView> {
    v.map_values(|s: KeydSection| s@)
}

/// What becomes of a line that holds no `#`.
#[derive(Clone, Copy, PartialEq, Eq, Structural, Debug)]
pub enum CommentPolicy {
    /// The line is skipped, as only lines with a `#` are read.
    SkipUncommented,
    /// The line is read whole.
    ReadUncommented,
}

/// What a line holds for the document.
pub enum LineView {
    Blank,
    Header(Seq<char>),
    Binding(Seq<char>, Seq<char>),
}

/// The part of a line before its first `#`; a line without one is skipped
/// or read whole, by the policy.
pub open spec fn content_of(line: Seq<char>, policy: CommentPolicy) -> Option<Seq<char>> {
    let k = find(line, '#');
    if k < line.len() {
        Some(line.subrange(0, k))
    } else if policy == CommentPolicy::SkipUncommented {
        None
    } else {
        Some(line)
    }
}

/// A line's meaning: a `[name]` header (both trimmed), else a binding split
/// at the first `=` with both sides trimmed, else nothing.
pub open spec fn line_spec(line: Seq<char>, policy: CommentPolicy) -> LineView {
    match content_of(line, policy) {
        None => LineView::Blank,
        Some(c) => {
            let header = strip_wrap(trim(c), seq!['['], seq![']']);
            let k = find(c, '=');
            if header is Some {
                LineView::Header(header->Some_0)
            } else if k < c.len() {
                LineView::Binding(trim(c.subrange(0, k)), trim(c.subrange(k + 1, c.len() as int)))
            } else {
                LineView::Blank
            }
        },
    }
}

/// The sections of a document of `lines`. A header opens a section; a
/// binding joins the last one opened, and is not read before the first
/// header. The first binding that fails to parse fails the document.
pub open spec fn doc_spec(lines: Seq<Seq<char>>, policy: CommentPolicy) -> Result<
    Seq<SectionView>,
    ErrorView,
>
    decreases lines.len(),
{
    if lines.len() == 0 {
        Ok(Seq::empty())
    } else {
        match doc_spec(lines.drop_last(), policy) {
            Err(e) => Err(e),
            Ok(secs) => match line_spec(lines.last(), policy) {
                LineView::Blank => Ok(secs),
                LineView::Header(n) => Ok(secs.push(SectionView { name: n, content: Seq::empty() })),
                LineView::Binding(l, r) => if secs.len() == 0 {
                    Ok(secs)
                } else {
                    match statement_spec(l, r) {
                        Err(e) => Err(e),
                        Ok(st) => Ok(
                            secs.update(
                                secs.len() - 1,
                                SectionView {
                                    name: secs.last().name,
                                    content: secs.last().content.push(st),
                                },
                            ),
                        ),
                    }
                },
            },
        }
    }
}

/// Once a prefix of the lines fails, the whole document fails the same way.
proof fn lemma_doc_err(lines: Seq<Seq<char>>, n: int, policy: CommentPolicy)
    requires
        0 <= n <= lines.len(),
        doc_spec(lines.subrange(0, n), policy) is Err,
    ensures
        doc_spec(lines, policy) == doc_spec(lines.subrange(0, n), policy),
    decreases lines.len(),
{
    if lines.len() > n {
        assert(lines.drop_last().subrange(0, n) =~= lines.subrange(0, n));
        lemma_doc_err(lines.drop_last(), n, policy);
    } else {
        assert(lines.subrange(0, n) =~= lines);
    }
}

/// One line, read for the document.
pub enum Line {
    Blank,
    Header(String),
    Binding(String, String),
}

impl View for Line {
    type V = LineView;

    open spec fn view(&self) -> LineView {
        match self {
            Line::Blank => LineView::Blank,
            Line::Header(n) => LineView::Header(n@),
            Line::Binding(l, r) => LineView::Binding(l@, r@),
        }
    }
}

/// Reads one line: comment, header, binding or nothing.
pub fn read_line(line: &str, policy: CommentPolicy) -> (r: Line)
    ensures
        r@ == line_spec(line@, policy),
{
    let lcs = chars_of(line);
    let k = find_char(&lcs, '#');
    if k >= lcs.len() && policy == CommentPolicy::SkipUncommented {
        return Line::Blank;
    }
    let c = line.substring_char(0, k);
    assert(k == lcs.len() ==> c@ =~= line@);
    let t = trim_str(c);
    let tcs = chars_of(t);
    let open = ['['];
    let close = [']'];
    assert(open@ =~= seq!['[']);
    assert(close@ =~= seq![']']);
    if let Some(name) = strip_wrap_str(t, &tcs, &open, &close) {
        return Line::Header(name.to_owned());
    }
    let ccs = chars_of(c);
    let e = find_char(&ccs, '=');
    if e < ccs.len() {
        let left = trim_str(c.substring_char(0, e));
        let right = trim_str(c.substring_char(e + 1, ccs.len()));
        Line::Binding(left.to_owned(), right.to_owned())
    } else {
        Line::Blank
    }
}

/// Parses a document given as its lines.
pub fn parse_document(lines: &Vec<String>, policy: CommentPolicy) -> (r: Result<
    Vec<KeydSection>,
    ParseError,
>)
    ensures
        result_view(r, |v: Vec<KeydSection>| sections_view(v@)) == doc_spec(views(lines@), policy),
{
    let ghost ls = views(lines@);
    let mut out: Vec<KeydSection> = Vec::new();
    let mut i: usize = 0;
    assert(ls.subrange(0, 0) =~= Seq::<Seq<char>>::empty());
    assert(sections_view(out@) =~= Seq::<SectionView>::empty());
    while i < lines.len()
        invariant
            ls == views(lines@),
            i <= lines@.len(),
            doc_spec(ls.subrange(0, i as int), policy) == Ok::<Seq<SectionView>, ErrorView>(
                sections_view(out@),
            ),
        decreases lines.len() - i,
    {
        let ghost prev = ls.subrange(0, i as int);
        let ghost before = sections_view(out@);
        assert(ls.subrange(0, i + 1).drop_last() =~= prev);
        assert(ls.subrange(0, i + 1).last() == lines@[i as int]@);
        match read_line(lines[i].as_str(), policy) {
            Line::Blank => {},
            Line::Header(name) => {
                let sec = KeydSection { name, content: Vec::new() };
                out.push(sec);
                assert(sec@.content =~= Seq::<StatementView>::empty());
                assert(sections_view(out@) =~= before.push(sec@));
            },
            Line::Binding(left, right) => {
                if out.len() > 0 {
                    match KeydStatement::parse(left.as_str(), right.as_str()) {
                        Ok(st) => {
                            let mut sec = out.pop().unwrap();
                            let ghost old_content = sec.content@;
                            assert(before.last() == sec@);
                            sec.content.push(st);
                            assert(sec@.content =~= before.last().content.push(st@));
                            out.push(sec);
                            assert(sections_view(out@) =~= before.update(
                                before.len() - 1,
                                SectionView {
                                    name: before.last().name,
                                    content: before.last().content.push(st@),
                                },
                            ));
                        },
                        Err(e) => {
                            proof {
                                lemma_doc_err(ls, i + 1, policy);
                            }
                            return Err(e);
                        },
                    }
                }
            },
        }
        i = i + 1;
    }
    assert(ls.subrange(0, i as int) =~= ls);
    Ok(out)
}

} // verus!
