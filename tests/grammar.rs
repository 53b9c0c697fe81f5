use remap::{
    classify, is_valid_ident, parse_document, parse_macro, read_line, Action, CommentPolicy,
    KeydExpr, KeydSection, KeydStatement, Line, MacroToken, ParseError,
};

fn tok(t: &MacroToken) -> String {
    match t {
        MacroToken::Key(k) => format!("Key({k})"),
        MacroToken::Combination(m, k) => format!("Combination({m:?}, {k})"),
        MacroToken::Text(s) => format!("Text({s})"),
        MacroToken::Hold(ks) => format!("Hold({ks:?})"),
        MacroToken::Timeout(t) => format!("Timeout({t})"),
    }
}

fn toks(v: &[MacroToken]) -> String {
    let parts: Vec<String> = v.iter().map(tok).collect();
    format!("[{}]", parts.join(", "))
}

fn expr(e: &KeydExpr) -> String {
    match e {
        KeydExpr::Key(k) => format!("Key({k})"),
        KeydExpr::Layer(x) => format!("Layer({x})"),
        KeydExpr::Oneshot(x) => format!("Oneshot({x})"),
        KeydExpr::Swap(x) => format!("Swap({x})"),
        KeydExpr::SetLayout(x) => format!("SetLayout({x})"),
        KeydExpr::Clear => "Clear".to_string(),
        KeydExpr::Toggle(x) => format!("Toggle({x})"),
        KeydExpr::Timeout(a, t, b) => format!("Timeout({}, {t}, {})", expr(a), expr(b)),
    }
}

fn action(a: &Action) -> String {
    match a {
        Action::Key(k) => format!("Key({k})"),
        Action::Noop => "Noop".to_string(),
        Action::Layer(x) => format!("Layer({x})"),
        Action::Oneshot(x) => format!("Oneshot({x})"),
        Action::Swap(x) => format!("Swap({x})"),
        Action::SetLayout(x) => format!("SetLayout({x})"),
        Action::Clear => "Clear".to_string(),
        Action::Toggle(x) => format!("Toggle({x})"),
        Action::Layerm(l, m) => format!("Layerm({l}, {})", toks(m)),
        Action::Oneshotm(l, m) => format!("Oneshotm({l}, {})", toks(m)),
        Action::Swapm(l, m) => format!("Swapm({l}, {})", toks(m)),
        Action::Togglem(l, m) => format!("Togglem({l}, {})", toks(m)),
        Action::Clearm(m) => format!("Clearm({})", toks(m)),
        Action::Overload(l, e) => format!("Overload({l}, {})", expr(e)),
        Action::Overloadt(l, e, t) => format!("Overloadt({l}, {}, {t})", expr(e)),
        Action::Overloadt2(l, e, t) => format!("Overloadt2({l}, {}, {t})", expr(e)),
        Action::Timeout(a, t, b) => format!("Timeout({}, {t}, {})", expr(a), expr(b)),
        Action::Macro2(a, b, m) => format!("Macro2({a}, {b}, {})", toks(m)),
        Action::Command(c) => format!("Command({c})"),
    }
}

fn err(e: &ParseError) -> String {
    match e {
        ParseError::InvalidIdent(s) => format!("InvalidIdent({s})"),
        ParseError::InvalidInt(_) => "InvalidInt".to_string(),
        ParseError::BadArgs(n, a) => format!("BadArgs({n}, {a})"),
        ParseError::InvalidCall(n) => format!("InvalidCall({n})"),
    }
}

fn act(s: &str) -> String {
    match Action::parse(s) {
        Ok(a) => action(&a),
        Err(e) => format!("Err({})", err(&e)),
    }
}

fn reduced(s: &str) -> String {
    match KeydExpr::parse(s) {
        Ok(e) => expr(&e),
        Err(e) => format!("Err({})", err(&e)),
    }
}

fn mac(s: &str) -> String {
    match parse_macro(s) {
        Ok(v) => toks(&v),
        Err(e) => format!("Err({})", err(&e)),
    }
}

fn stmt(s: &KeydStatement) -> String {
    match s {
        KeydStatement::Star => "Star".to_string(),
        KeydStatement::SetId(a, b) => format!("SetId({a}, {b})"),
        KeydStatement::UnsetId(a, b) => format!("UnsetId({a}, {b})"),
        KeydStatement::Define(k, a) => format!("Define({k}, {})", action(a)),
    }
}

fn doc(lines: &[&str], policy: CommentPolicy) -> String {
    let lines: Vec<String> = lines.iter().map(|s| s.to_string()).collect();
    match parse_document(&lines, policy) {
        Ok(secs) => {
            let parts: Vec<String> = secs.iter().map(section).collect();
            format!("[{}]", parts.join(", "))
        }
        Err(e) => format!("Err({})", err(&e)),
    }
}

fn section(s: &KeydSection) -> String {
    let parts: Vec<String> = s.content.iter().map(stmt).collect();
    format!("{}: [{}]", s.name, parts.join(", "))
}

#[test]
fn alnum_strings_are_idents() {
    for s in ["a", "enter", "f12", "ABC123", "0"] {
        assert!(is_valid_ident(s), "{s}");
        assert!(KeydExpr::is_valid_ident(s), "{s}");
    }
}

#[test]
fn empty_string_is_no_ident() {
    assert!(!is_valid_ident(""));
}

#[test]
fn punctuation_characters_are_idents() {
    for c in "`~!@#$%^&*()-_=+[]{}\\|;:'\",./<>?".chars() {
        assert!(is_valid_ident(&c.to_string()), "{c}");
    }
}

#[test]
fn other_single_characters_are_no_idents() {
    for s in [" ", "\t", "é", "§", "\u{3000}"] {
        assert!(!is_valid_ident(s), "{s:?}");
    }
    assert!(!is_valid_ident("a-"));
    assert!(!is_valid_ident("--"));
    assert!(!is_valid_ident("a b"));
}

#[test]
fn classify_key() {
    assert_eq!(tok(&classify("enter")), "Key(enter)");
    assert_eq!(tok(&classify("-")), "Key(-)");
}

#[test]
fn classify_combination() {
    assert_eq!(tok(&classify("A-C-delete")), "Combination([\"A\", \"C\"], delete)");
    assert_eq!(tok(&classify("S-/")), "Combination([\"S\"], /)");
}

#[test]
fn classify_hold() {
    assert_eq!(tok(&classify("ctrl+alt+del")), "Hold([\"ctrl\", \"alt\", \"del\"])");
    assert_eq!(tok(&classify("a++")), "Text(a++)");
}

#[test]
fn classify_combination_wins_over_hold() {
    assert_eq!(tok(&classify("C-+")), "Combination([\"C\"], +)");
}

#[test]
fn classify_modifier_must_be_single_known_letter() {
    assert_eq!(tok(&classify("ctrl-x")), "Text(ctrl-x)");
    assert_eq!(tok(&classify("X-a")), "Text(X-a)");
    assert_eq!(tok(&classify("A-")), "Text(A-)");
}

#[test]
fn classify_timeout() {
    // digits alone are a key name, which comes first
    assert_eq!(tok(&classify("250")), "Key(250)");
    assert_eq!(tok(&classify("+250")), "Timeout(250)");
    assert_eq!(tok(&classify("+65535")), "Timeout(65535)");
}

#[test]
fn classify_out_of_range_number_is_text() {
    assert_eq!(tok(&classify("+65536")), "Text(+65536)");
    assert_eq!(tok(&classify("hello!")), "Text(hello!)");
}

#[test]
fn timeout_parameter_out_of_range() {
    assert_eq!(act("overloadt(nav,a,99999)"), "Err(InvalidInt)");
    assert_eq!(act("overloadt(nav,a,x)"), "Err(InvalidInt)");
    assert_eq!(act("overloadt(nav,a,65535)"), "Overloadt(nav, Key(a), 65535)");
}

#[test]
fn macro_of_keys() {
    assert_eq!(mac("a b c"), "[Key(a), Key(b), Key(c)]");
}

#[test]
fn macro_nested_is_flattened() {
    assert_eq!(mac("a macro(b c) d"), "[Key(a), Key(b), Key(c), Key(d)]");
}

#[test]
fn macro_edge_cases() {
    assert_eq!(mac(""), "[]");
    assert_eq!(mac("  a   b "), "[Key(a), Key(b)]");
    assert_eq!(mac("x) y"), "[Text(x)), Key(y)]");
    assert_eq!(mac("C-a hello!"), "[Combination([\"C\"], a), Text(hello!)]");
    assert_eq!(mac("macro(a macro(b) c)"), "[Key(a), Text(b)), Key(c)]");
}

#[test]
fn action_layer() {
    assert_eq!(act("layer(nav)"), "Layer(nav)");
    assert_eq!(act("layer(a-b)"), "Err(InvalidIdent(a-b))");
    assert_eq!(act("layer()"), "Err(InvalidIdent())");
}

#[test]
fn action_overloadt_splits_at_every_comma() {
    assert_eq!(act("overloadt(nav,layer(foo),200)"), "Overloadt(nav, Layer(foo), 200)");
    assert_eq!(
        act("overloadt(nav,timeout(a,100,b),200)"),
        "Err(BadArgs(overloadt, nav,timeout(a,100,b),200))"
    );
}

#[test]
fn action_unknown_and_bad_arity() {
    assert_eq!(act("foo(x)"), "Err(InvalidCall(foo))");
    assert_eq!(act("layer(a,b)"), "Err(BadArgs(layer, a,b))");
    assert_eq!(act("a b"), "Err(InvalidIdent(a b))");
    assert_eq!(act("layer(x"), "Err(InvalidIdent(layer(x))");
}

#[test]
fn action_each_entry() {
    assert_eq!(act("oneshot(nav)"), "Oneshot(nav)");
    assert_eq!(act("swap(nav)"), "Swap(nav)");
    assert_eq!(act("setlayout(de-neo)"), "SetLayout(de-neo)");
    assert_eq!(act("clear()"), "Clear");
    assert_eq!(act("clear(x)"), "Err(BadArgs(clear, x))");
    assert_eq!(act("toggle(a b)"), "Toggle(a b)");
    assert_eq!(act("layerm(nav,macro(a b))"), "Layerm(nav, [Key(a), Key(b)])");
    assert_eq!(act("oneshotm(nav,x)"), "Oneshotm(nav, [Text(x)])");
    assert_eq!(act("swapm(nav,C-a)"), "Swapm(nav, [Combination([\"C\"], a)])");
    assert_eq!(act("togglem(nav,enter)"), "Err(InvalidIdent(enter))");
    assert_eq!(act("clearm(macro( a ))"), "Clearm([Key(a)])");
    assert_eq!(act("overload(nav,esc)"), "Overload(nav, Key(esc))");
    assert_eq!(act("overloadt2(nav,oneshot(x),10)"), "Overloadt2(nav, Oneshot(x), 10)");
    assert_eq!(act("timeout(a,150,b)"), "Timeout(Key(a), 150, Key(b))");
    assert_eq!(act("macro2(100,20,macro(a))"), "Macro2(100, 20, [Key(a)])");
    assert_eq!(act("command(echo hi)"), "Command(echo hi)");
}

#[test]
fn action_arguments_are_not_trimmed() {
    assert_eq!(act("overload(nav, esc)"), "Err(InvalidIdent( esc))");
}

#[test]
fn action_nested_uses_reduced_grammar() {
    assert_eq!(act("overload(nav,layerm(x))"), "Err(InvalidCall(layerm))");
}

#[test]
fn reduced_grammar() {
    assert_eq!(reduced("a"), "Key(a)");
    assert_eq!(reduced("layer( nav )"), "Layer(nav)");
    assert_eq!(reduced("toggle(x)"), "Toggle(x)");
    assert_eq!(reduced("setlayout(de)"), "SetLayout(de)");
    assert_eq!(reduced("clear( )"), "Clear");
    assert_eq!(reduced("timeout(a, 300, layer(x))"), "Timeout(Key(a), 300, Layer(x))");
    assert_eq!(reduced("timeout(a,b)"), "Err(BadArgs(timeout, a,b))");
    assert_eq!(reduced("timeout(a,x,b)"), "Err(InvalidInt)");
    assert_eq!(reduced("layer(a b)"), "Err(InvalidIdent(a b))");
    assert_eq!(reduced("layerm(x,y)"), "Err(InvalidCall(layerm))");
    assert_eq!(reduced("a b"), "Err(InvalidIdent(a b))");
}

#[test]
fn statement_binding() {
    let s = KeydStatement::parse("a", "layer(nav)").ok().unwrap();
    assert_eq!(stmt(&s), "Define(a, Layer(nav))");
    match KeydStatement::parse("A", "x") {
        Err(e) => assert_eq!(err(&e), "InvalidIdent(A)"),
        Ok(_) => panic!("upper-case key accepted"),
    }
}

#[test]
fn read_line_kinds() {
    let line = read_line("a = layer(nav) # comment", CommentPolicy::SkipUncommented);
    assert!(matches!(line, Line::Binding(ref l, ref r) if l == "a" && r == "layer(nav)"));
    let line = read_line(" [ main ] ", CommentPolicy::ReadUncommented);
    assert!(matches!(line, Line::Header(ref n) if n == "main"));
    let line = read_line("[main]", CommentPolicy::SkipUncommented);
    assert!(matches!(line, Line::Blank));
    let line = read_line("# a = b", CommentPolicy::ReadUncommented);
    assert!(matches!(line, Line::Blank));
}

#[test]
fn document_binding_with_comment() {
    let lines = ["[main] #", "a = layer(nav) # comment"];
    assert_eq!(doc(&lines, CommentPolicy::SkipUncommented), "[main: [Define(a, Layer(nav))]]");
    assert_eq!(doc(&lines, CommentPolicy::ReadUncommented), "[main: [Define(a, Layer(nav))]]");
}

#[test]
fn document_line_without_comment() {
    let lines = ["[main] #", "a = layer(nav)"];
    assert_eq!(doc(&lines, CommentPolicy::SkipUncommented), "[main: []]");
    assert_eq!(doc(&lines, CommentPolicy::ReadUncommented), "[main: [Define(a, Layer(nav))]]");
}

#[test]
fn document_sections_and_leading_lines() {
    let lines = ["a = b", "[main]", "x = y", "", "[nav]", "h = left"];
    assert_eq!(
        doc(&lines, CommentPolicy::ReadUncommented),
        "[main: [Define(x, Key(y))], nav: [Define(h, Key(left))]]"
    );
}

#[test]
fn document_empty() {
    assert_eq!(doc(&[], CommentPolicy::ReadUncommented), "[]");
    assert_eq!(doc(&["[only]"], CommentPolicy::ReadUncommented), "[only: []]");
}

#[test]
fn document_error_fails_whole_parse() {
    let lines = ["[main]", "B = x", "c = d"];
    assert_eq!(doc(&lines, CommentPolicy::ReadUncommented), "Err(InvalidIdent(B))");
    let lines = ["[main]", "a = foo(x)"];
    assert_eq!(doc(&lines, CommentPolicy::ReadUncommented), "Err(InvalidCall(foo))");
}

#[test]
fn canonical_text_reads_back() {
    assert_eq!(
        reduced("timeout(layer(a),100,clear())"),
        "Timeout(Layer(a), 100, Clear)"
    );
    assert_eq!(reduced("swap(;)"), "Swap(;)");
    assert_eq!(reduced("timeout(a,0,b)"), "Timeout(Key(a), 0, Key(b))");
}
