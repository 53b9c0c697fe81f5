//! Character classes and small operations on character sequences that the
//! grammar is written in terms of.
use vstd::prelude::*;
use vstd::std_specs::iter::IteratorSpec;
use vstd::string::StrSliceExecFns;

verus! {

/// An ASCII letter or digit.
pub open spec fn is_alnum(c: char) -> bool {
    ('a' <= c && c <= 'z') || ('A' <= c && c <= 'Z') || ('0' <= c && c <= '9')
}

/// An ASCII lower-case letter.
pub open spec fn is_lower(c: char) -> bool {
    'a' <= c && c <= 'z'
}

/// The punctuation characters that name a key on their own.
pub open spec fn is_punct(c: char) -> bool {
    c == '`' || c == '~' || c == '!' || c == '@' || c == '#' || c == '$' || c == '%' || c == '^'
        || c == '&' || c == '*' || c == '(' || c == ')' || c == '-' || c == '_' || c == '='
        || c == '+' || c == '[' || c == ']' || c == '{' || c == '}' || c == '\\' || c == '|'
        || c == ';' || c == ':' || c == '\'' || c == '"' || c == ',' || c == '.' || c == '/'
        || c == '<' || c == '>' || c == '?'
}

/// The characters with the Unicode `White_Space` property.
pub open spec fn is_ws(c: char) -> bool {
    ('\u{9}' <= c && c <= '\u{d}') || c == ' ' || c == '\u{85}' || c == '\u{a0}' || c
        == '\u{1680}' || ('\u{2000}' <= c && c <= '\u{200a}') || c == '\u{2028}' || c
        == '\u{2029}' || c == '\u{202f}' || c == '\u{205f}' || c == '\u{3000}'
}

/// An ASCII decimal digit.
pub open spec fn is_digit(c: char) -> bool {
    '0' <= c && c <= '9'
}

/// Every character is an ASCII letter or digit.
pub open spec fn all_alnum(s: Seq<char>) -> bool {
    forall|i: int| 0 <= i < s.len() ==> is_alnum(#[trigger] s[i])
}

/// Every character is an ASCII lower-case letter.
pub open spec fn all_lower(s: Seq<char>) -> bool {
    forall|i: int| 0 <= i < s.len() ==> is_lower(#[trigger] s[i])
}

/// `s` with its leading white space removed.
pub open spec fn trim_start(s: Seq<char>) -> Seq<char>
    decreases s.len(),
{
    if s.len() > 0 && is_ws(s[0]) {
        trim_start(s.drop_first())
    } else {
        s
    }
}

/// `s` with its trailing white space removed.
pub open spec fn trim_end(s: Seq<char>) -> Seq<char>
    decreases s.len(),
{
    if s.len() > 0 && is_ws(s.last()) {
        trim_end(s.drop_last())
    } else {
        s
    }
}

/// `s` with white space removed at both ends.
pub open spec fn trim(s: Seq<char>) -> Seq<char> {
    trim_end(trim_start(s))
}

/// The value of a sequence of decimal digits.
pub open spec fn digits_value(s: Seq<char>) -> nat
    decreases s.len(),
{
    if s.len() == 0 {
        0
    } else {
        digits_value(s.drop_last()) * 10 + (s.last() as nat - '0' as nat) as nat
    }
}

/// What `s` denotes as an unsigned 16-bit decimal number: an optional `+`
/// followed by at least one digit, with a value below 65536.
pub open spec fn u16_text(s: Seq<char>) -> Option<u16> {
    let d = if s.len() > 0 && s[0] == '+' {
        s.drop_first()
    } else {
        s
    };
    if d.len() > 0 && (forall|i: int| 0 <= i < d.len() ==> is_digit(#[trigger] d[i]))
        && digits_value(d) <= 65535 {
        Some(digits_value(d) as u16)
    } else {
        None
    }
}

/// The first index at or after `i` where `c` stands in `s`, or `s.len()`.
pub open spec fn find_from(s: Seq<char>, c: char, i: int) -> int
    decreases s.len() - i,
{
    if i < 0 || i >= s.len() {
        s.len() as int
    } else if s[i] == c {
        i
    } else {
        find_from(s, c, i + 1)
    }
}

/// The first index of `c` in `s`, or `s.len()` when it does not occur.
pub open spec fn find(s: Seq<char>, c: char) -> int {
    find_from(s, c, 0)
}

/// The pieces of `s` between the occurrences of `c`; there is always at least one.
pub open spec fn split(s: Seq<char>, c: char) -> Seq<Seq<char>>
    decreases s.len(),
{
    if s.len() == 0 {
        seq![Seq::empty()]
    } else {
        let p = split(s.drop_last(), c);
        if s.last() == c {
            p.push(Seq::empty())
        } else {
            p.update(p.len() - 1, p.last().push(s.last()))
        }
    }
}

/// `s` without the prefix `left` and the suffix `right`, then trimmed, where
/// `s` has both and they do not overlap.
pub open spec fn strip_wrap(s: Seq<char>, left: Seq<char>, right: Seq<char>) -> Option<Seq<char>> {
    if left.len() + right.len() <= s.len() && s.subrange(0, left.len() as int) == left
        && s.subrange(s.len() - right.len(), s.len() as int) == right {
        Some(trim(s.subrange(left.len() as int, s.len() - right.len())))
    } else {
        None
    }
}

/// The views of a sequence of strings.
pub open spec fn views(v: Seq<String>) -> Seq<Seq<char>> {
    v.map_values(|x: String| x@)
}

/// The views of a sequence of string slices.
pub open spec fn str_views(v: Seq<&str>) -> Seq<Seq<char>> {
    v.map_values(|x: &str| x@)
}

/// Trimming never lengthens.
pub proof fn lemma_trim_len(s: Seq<char>)
    ensures
        trim_start(s).len() <= s.len(),
        trim_end(s).len() <= s.len(),
        trim(s).len() <= s.len(),
    decreases s.len(),
{
    if s.len() > 0 {
        lemma_trim_len(s.drop_first());
        lemma_trim_len(s.drop_last());
    }
    lemma_trim_end_len(trim_start(s));
}

proof fn lemma_trim_end_len(s: Seq<char>)
    ensures
        trim_end(s).len() <= s.len(),
    decreases s.len(),
{
    if s.len() > 0 {
        lemma_trim_end_len(s.drop_last());
    }
}

/// Splitting gives at least one piece, none longer than the whole.
pub proof fn lemma_split_len(s: Seq<char>, c: char)
    ensures
        split(s, c).len() >= 1,
        forall|i: int| 0 <= i < split(s, c).len() ==> (#[trigger] split(s, c)[i]).len() <= s.len(),
    decreases s.len(),
{
    if s.len() > 0 {
        lemma_split_len(s.drop_last(), c);
    }
}

/// Whether `c` is an ASCII letter or digit.
pub fn char_is_alnum(c: char) -> (r: bool)
    ensures
        r == is_alnum(c),
{
    ('a' <= c && c <= 'z') || ('A' <= c && c <= 'Z') || ('0' <= c && c <= '9')
}

/// Whether `c` is one of the punctuation keys.
pub fn char_is_punct(c: char) -> (r: bool)
    ensures
        r == is_punct(c),
{
    c == '`' || c == '~' || c == '!' || c == '@' || c == '#' || c == '$' || c == '%' || c == '^'
        || c == '&' || c == '*' || c == '(' || c == ')' || c == '-' || c == '_' || c == '='
        || c == '+' || c == '[' || c == ']' || c == '{' || c == '}' || c == '\\' || c == '|'
        || c == ';' || c == ':' || c == '\'' || c == '"' || c == ',' || c == '.' || c == '/'
        || c == '<' || c == '>' || c == '?'
}

/// The characters of `s`, in order.
pub fn chars_of(s: &str) -> (v: Vec<char>)
    ensures
        v@ == s@,
{
    let n = s.unicode_len();
    let mut v: Vec<char> = Vec::new();
    let mut it = s.chars();
    let mut i: usize = 0;
    while i < n
        invariant
            n == s@.len(),
            i <= n,
            v@ == s@.subrange(0, i as int),
            it.remaining() == s@.subrange(i as int, n as int),
            it.obeys_prophetic_iter_laws(),
        decreases n - i,
    {
        if let Some(c) = it.next() {
            v.push(c);
        }
        i = i + 1;
    }
    v
}

/// Whether every character of `cs` is an ASCII letter or digit.
pub fn chars_all_alnum(cs: &Vec<char>) -> (r: bool)
    ensures
        r == all_alnum(cs@),
{
    let mut i: usize = 0;
    while i < cs.len()
        invariant
            i <= cs@.len(),
            forall|j: int| 0 <= j < i ==> is_alnum(#[trigger] cs@[j]),
        decreases cs.len() - i,
    {
        if !char_is_alnum(cs[i]) {
            return false;
        }
        i = i + 1;
    }
    true
}

/// Whether every character of `cs` is an ASCII lower-case letter.
pub fn chars_all_lower(cs: &Vec<char>) -> (r: bool)
    ensures
        r == all_lower(cs@),
{
    let mut i: usize = 0;
    while i < cs.len()
        invariant
            i <= cs@.len(),
            forall|j: int| 0 <= j < i ==> is_lower(#[trigger] cs@[j]),
        decreases cs.len() - i,
    {
        if !('a' <= cs[i] && cs[i] <= 'z') {
            return false;
        }
        i = i + 1;
    }
    true
}

/// Whether `cs[lo..hi]` equals `w`.
pub fn chars_eq(cs: &Vec<char>, lo: usize, hi: usize, w: &[char]) -> (r: bool)
    requires
        lo <= hi <= cs@.len(),
    ensures
        r == (cs@.subrange(lo as int, hi as int) == w@),
{
    if hi - lo != w.len() {
        return false;
    }
    let mut i: usize = 0;
    while i < w.len()
        invariant
            hi - lo == w@.len(),
            lo <= hi <= cs@.len(),
            i <= w@.len(),
            forall|j: int| 0 <= j < i ==> cs@[lo + j] == w@[j],
        decreases w.len() - i,
    {
        if cs[lo + i] != w[i] {
            assert(cs@.subrange(lo as int, hi as int)[i as int] != w@[i as int]);
            return false;
        }
        i = i + 1;
    }
    assert(cs@.subrange(lo as int, hi as int) =~= w@);
    true
}

/// The first index of `c` in `cs`, or its length.
pub fn find_char(cs: &Vec<char>, c: char) -> (r: usize)
    ensures
        r == find(cs@, c),
        r <= cs@.len(),
        r < cs@.len() ==> cs@[r as int] == c,
{
    let mut i: usize = 0;
    while i < cs.len()
        invariant
            i <= cs@.len(),
            find(cs@, c) == find_from(cs@, c, i as int),
        decreases cs.len() - i,
    {
        if cs[i] == c {
            return i;
        }
        i = i + 1;
    }
    i
}

/// The pieces of `s` between the occurrences of `c`.
pub fn split_str<'a>(s: &'a str, cs: &Vec<char>, c: char) -> (r: Vec<&'a str>)
    requires
        cs@ == s@,
    ensures
        str_views(r@) == split(s@, c),
{
    let ghost sv = s@;
    let mut r: Vec<&'a str> = Vec::new();
    let mut start: usize = 0;
    let mut i: usize = 0;
    assert(sv.subrange(0, 0) =~= Seq::<char>::empty());
    assert(str_views(r@).push(sv.subrange(0, 0)) =~= seq![Seq::<char>::empty()]);
    while i < cs.len()
        invariant
            cs@ == sv,
            sv == s@,
            start <= i <= sv.len(),
            split(sv.subrange(0, i as int), c) == str_views(r@).push(
                sv.subrange(start as int, i as int),
            ),
        decreases cs.len() - i,
    {
        let ghost prev = sv.subrange(0, i as int);
        assert(sv.subrange(0, i + 1).drop_last() =~= prev);
        if cs[i] == c {
            let piece = s.substring_char(start, i);
            r.push(piece);
            start = i + 1;
            assert(sv.subrange(start as int, i + 1) =~= Seq::<char>::empty());
            assert(str_views(r@) =~= str_views(r@).drop_last().push(piece@));
        } else {
            assert(sv.subrange(start as int, i + 1) =~= sv.subrange(start as int, i as int).push(
                cs@[i as int],
            ));
        }
        i = i + 1;
        assert(split(sv.subrange(0, i as int), c) =~= str_views(r@).push(
            sv.subrange(start as int, i as int),
        ));
    }
    let last = s.substring_char(start, i);
    r.push(last);
    assert(sv.subrange(0, i as int) =~= sv);
    assert(str_views(r@) =~= str_views(r@).drop_last().push(last@));
    r
}

/// `s` split at the first `(` after its closing `)` is removed: the call's
/// name and its raw arguments.
pub open spec fn call_parts(s: Seq<char>) -> Option<(Seq<char>, Seq<char>)> {
    let r = s.drop_last();
    let k = find(r, '(');
    if s.len() > 0 && s.last() == ')' && k < r.len() {
        Some((r.subrange(0, k), r.subrange(k + 1, r.len() as int)))
    } else {
        None
    }
}

/// The text between `left` and `right` in `s`, trimmed; see [`strip_wrap`].
pub fn strip_wrap_str<'a>(s: &'a str, cs: &Vec<char>, left: &[char], right: &[char]) -> (r:
    Option<&'a str>)
    requires
        cs@ == s@,
    ensures
        r is None <==> strip_wrap(s@, left@, right@) is None,
        r is Some ==> strip_wrap(s@, left@, right@) == Some(r->Some_0@),
{
    let n = cs.len();
    if left.len() > n || right.len() > n - left.len() {
        return None;
    }
    if !chars_eq(cs, 0, left.len(), left) || !chars_eq(cs, n - right.len(), n, right) {
        return None;
    }
    Some(trim_str(s.substring_char(left.len(), n - right.len())))
}

/// The name and raw arguments of a call-shaped `s`; see [`call_parts`].
pub fn call_parts_str<'a>(s: &'a str, cs: &Vec<char>) -> (r: Option<(&'a str, &'a str)>)
    requires
        cs@ == s@,
    ensures
        r is None <==> call_parts(s@) is None,
        r is Some ==> call_parts(s@) == Some((r->Some_0.0@, r->Some_0.1@)),
{
    let n = cs.len();
    if n == 0 || cs[n - 1] != ')' {
        return None;
    }
    let mut rest = cs.clone();
    rest.pop();
    assert(rest@ =~= s@.drop_last());
    let k = find_char(&rest, '(');
    if k >= rest.len() {
        return None;
    }
    let name = s.substring_char(0, k);
    let args = s.substring_char(k + 1, n - 1);
    assert(name@ =~= rest@.subrange(0, k as int));
    assert(args@ =~= rest@.subrange(k + 1, rest@.len() as int));
    Some((name, args))
}

/// Relies on `str::trim`: the slice of `s` without leading and trailing
/// white space, white space being the Unicode `White_Space` property.
#[verifier::external_body]
pub fn trim_str(s: &str) -> (r: &str)
    ensures
        r@ == trim(s@),
{
    s.trim()
}

#[verifier::external_type_specification]
#[verifier::external_body]
pub struct ExParseIntError(std::num::ParseIntError);

/// Relies on `str::parse::<u16>`: it succeeds exactly on an optional `+`
/// followed by decimal digits whose value fits in 16 bits, and gives that value.
#[verifier::external_body]
pub fn parse_u16(s: &str) -> (r: Result<u16, std::num::ParseIntError>)
    ensures
        r is Ok <==> u16_text(s@) is Some,
        r is Ok ==> u16_text(s@) == Some(r->Ok_0),
{
    s.parse::<u16>()
}

} // verus!
