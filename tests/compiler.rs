use class_list::generate::{class_list, generate, Emit};
use class_list::token::{parse_until, Delim, ParseError, ParseErrorKind, Span, StopAt, Tok};
use class_list::tokens::{
    BindPunct, ClassListOption, ClassListToken, ClassNameToken, CloneListOption, CrateOverride,
    RawOption,
};
use class_list::traits::{ClassList, ClassToggle};
use class_list::utils::{join_class_list, normalize_class_list_string, toggled_class};

fn ident(s: &str) -> Tok {
    Tok::Ident(s.to_string())
}

fn punct(c: char) -> Tok {
    Tok::Punct(c, false)
}

fn joint(c: char) -> Tok {
    Tok::Punct(c, true)
}

fn lit(s: &str) -> Tok {
    Tok::Literal(format!("{:?}", s))
}

fn bind() -> Vec<Tok> {
    vec![joint('<'), joint('='), punct('>')]
}

/// `"class" <=> true, "hidden" <=> false, "list" <=> true,`
fn scenario_entries() -> Vec<Tok> {
    let mut toks = vec![lit("class")];
    toks.extend(bind());
    toks.push(ident("true"));
    toks.push(punct(','));
    toks.push(lit("hidden"));
    toks.extend(bind());
    toks.push(ident("false"));
    toks.push(punct(','));
    toks.push(lit("list"));
    toks.extend(bind());
    toks.push(ident("true"));
    toks.push(punct(','));
    toks
}

fn default_crate() -> class_list::tokens::CratePath {
    CrateOverride::default().0
}

fn idents(code: &[Emit]) -> Vec<String> {
    code.iter()
        .filter_map(|e| match e {
            Emit::Ident(s) => Some(s.clone()),
            _ => None,
        })
        .collect()
}

#[test]
fn normalize_is_idempotent_on_examples() {
    for s in ["", "   ", "  a  b ", "a\t b", " x  y  z ", "abc"] {
        let once = normalize_class_list_string(s.to_string());
        let twice = normalize_class_list_string(once.clone());
        assert_eq!(once, twice);
    }
}

#[test]
fn normalize_edge_cases() {
    assert_eq!(normalize_class_list_string(String::new()), "");
    assert_eq!(normalize_class_list_string("     ".to_string()), "");
    assert_eq!(normalize_class_list_string("a\t\tb".to_string()), "a\t\tb");
    assert_eq!(normalize_class_list_string(" a \n b ".to_string()), "a \n b");
}

#[test]
fn entries_keep_their_order() {
    let r = join_class_list(vec!["c".to_string(), "a".to_string(), "b".to_string()]);
    assert_eq!(r, "c a b");
    let r = join_class_list(vec![" x ".to_string(), String::new(), "y  z".to_string()]);
    assert_eq!(r, "x y z");
    assert_eq!(join_class_list(Vec::new()), "");
}

#[test]
fn falsy_toggle_contributes_nothing() {
    assert_eq!(toggled_class(&("anything"), &(false)), "");
    assert_eq!(toggled_class(&("anything"), &(None::<bool>)), "");
    assert_eq!(toggled_class(&("anything"), &(Err::<bool, ()>(()))), "");
    assert_eq!(toggled_class(&("a  b"), &(Some(true))), "a  b");
    assert_eq!(toggled_class(&("a"), &(Ok::<bool, ()>(true))), "a");
    assert_eq!(toggled_class(&("a"), &(|| false)), "");
}

#[test]
fn raw_and_deferred_give_the_same_string() {
    let raw = join_class_list(vec![
        toggled_class(&("class"), &(true)),
        toggled_class(&("hidden"), &(false)),
        toggled_class(&("list"), &(true)),
    ]);
    let deferred = move || {
        join_class_list(vec![
            toggled_class(&("class"), &(true)),
            toggled_class(&("hidden"), &(false)),
            toggled_class(&("list"), &(true)),
        ])
    };
    assert_eq!(deferred(), raw);
    assert_eq!(deferred(), deferred());
}

#[test]
fn clone_isolates_the_deferred_computation() {
    let mut x = String::from("class");
    let deferred = {
        let x = x.clone();
        move || join_class_list(vec![(x).to_class_list(false)])
    };
    x.push_str(" changed");
    assert_eq!(x, "class changed");
    assert_eq!(deferred(), "class");
}

#[test]
fn capabilities_of_built_in_types() {
    assert_eq!(Some("  a ").to_class_list(true), "a");
    assert_eq!(Some("  a ").to_class_list(false), "  a ");
    assert_eq!(None::<&str>.to_class_list(true), "");
    assert_eq!(Err::<String, ()>(()).to_class_list(true), "");
    assert_eq!((|| " b  c ").to_class_list(true), "b c");
    assert!(Some(true).to_class_toggle());
    assert!(!Some(false).to_class_toggle());
    assert!(!None::<bool>.to_class_toggle());
    assert!((|| Ok::<bool, ()>(true)).to_class_toggle());
}

#[test]
fn bind_punct_parses() {
    let toks = bind();
    assert!(matches!(BindPunct::parse(&toks, 0), Ok((BindPunct, 3))));
    let toks = vec![punct('<'), punct('=')];
    assert!(matches!(
        BindPunct::parse(&toks, 0),
        Err(ParseError { pos: 0, kind: ParseErrorKind::ExpectedBindPunct })
    ));
}

#[test]
fn raw_option_forms() {
    let toks = vec![ident("raw")];
    assert!(matches!(RawOption::parse(&toks, 0), Ok((RawOption(true), 1))));
    let toks = vec![ident("raw"), punct('='), ident("false")];
    assert!(matches!(RawOption::parse(&toks, 0), Ok((RawOption(false), 3))));
    let toks = vec![ident("raw"), punct('='), Tok::Literal("5".to_string())];
    assert!(matches!(
        RawOption::parse(&toks, 0),
        Err(ParseError { pos: 0, kind: ParseErrorKind::MalformedOption })
    ));
}

#[test]
fn clone_option_forms() {
    let inner = vec![ident("a"), punct(','), ident("b")];
    let toks = vec![ident("clone"), Tok::Group(Delim::Bracket, inner)];
    let (c, end) = CloneListOption::parse(&toks, 0).ok().unwrap();
    assert_eq!(c.0, vec!["a".to_string(), "b".to_string()]);
    assert_eq!(end, 2);
    let inner = vec![ident("a"), punct(',')];
    let toks = vec![ident("clone"), punct('='), Tok::Group(Delim::Bracket, inner)];
    let (c, end) = CloneListOption::parse(&toks, 0).ok().unwrap();
    assert_eq!(c.0, vec!["a".to_string()]);
    assert_eq!(end, 3);
    let toks = vec![ident("clone"), ident("a")];
    assert!(matches!(
        CloneListOption::parse(&toks, 0),
        Err(ParseError { pos: 0, kind: ParseErrorKind::MalformedOption })
    ));
    let toks = vec![ident("clone"), Tok::Group(Delim::Bracket, vec![])];
    assert!(CloneListOption::parse(&toks, 0).is_err());
}

#[test]
fn crate_option_reads_a_path() {
    let toks = vec![
        ident("crate"),
        punct('='),
        joint(':'),
        punct(':'),
        ident("my"),
        joint(':'),
        punct(':'),
        ident("lib"),
        punct(';'),
    ];
    let (c, end) = CrateOverride::parse(&toks, 0).ok().unwrap();
    assert!(c.0.leading_colons);
    assert_eq!(c.0.segments, vec!["my".to_string(), "lib".to_string()]);
    assert_eq!(end, 8);
    let d = CrateOverride::default();
    assert!(d.0.leading_colons);
    assert_eq!(d.0.segments, vec!["class_list".to_string()]);
}

#[test]
fn option_dispatch() {
    let toks = vec![ident("raw")];
    assert!(matches!(
        ClassListOption::parse(&toks, 0),
        Ok((ClassListOption::Raw(RawOption(true)), 1))
    ));
    let toks = vec![lit("x")];
    assert!(matches!(
        ClassListOption::parse(&toks, 0),
        Err(ParseError { pos: 0, kind: ParseErrorKind::NotAnOption })
    ));
}

#[test]
fn scan_stops_at_separators() {
    let toks = scenario_entries();
    assert_eq!(parse_until(&toks, 0, StopAt::EntryOrToggle), 1);
    assert_eq!(parse_until(&toks, 4, StopAt::Entry), 5);
    assert_eq!(parse_until(&toks, toks.len(), StopAt::Entry), toks.len());
}

#[test]
fn entry_with_colon_toggle_and_path_value() {
    // a::b : on
    let toks = vec![ident("a"), joint(':'), punct(':'), ident("b"), punct(':'), ident("on")];
    let (e, end) = ClassNameToken::parse(&toks, 0).ok().unwrap();
    assert_eq!(e.value, Span { start: 0, end: 4 });
    assert_eq!(e.toggle, Some(Span { start: 5, end: 6 }));
    assert_eq!(end, 6);
}

#[test]
fn entry_errors() {
    let mut toks = bind();
    toks.push(ident("x"));
    assert!(matches!(
        ClassNameToken::parse(&toks, 0),
        Err(ParseError { pos: 0, kind: ParseErrorKind::EmptyValue })
    ));
    let mut toks = vec![lit("a")];
    toks.extend(bind());
    assert!(matches!(
        ClassNameToken::parse(&toks, 0),
        Err(ParseError { pos: 1, kind: ParseErrorKind::EmptyToggle })
    ));
}

#[test]
fn whole_invocation_parses() {
    let mut toks = vec![ident("raw"), punct(';')];
    toks.push(ident("clone"));
    toks.push(Tok::Group(Delim::Bracket, vec![ident("class")]));
    toks.push(punct(';'));
    toks.extend(scenario_entries());
    let unit = ClassListToken::parse(&toks, default_crate()).ok().unwrap();
    assert!(unit.raw);
    assert_eq!(unit.clones, vec!["class".to_string()]);
    assert_eq!(unit.values.len(), 3);
    assert_eq!(unit.values[0].value, Span { start: 5, end: 6 });
    assert_eq!(unit.values[0].toggle, Some(Span { start: 9, end: 10 }));
    assert_eq!(unit.macro_crate.segments, vec!["class_list".to_string()]);
}

#[test]
fn later_option_wins() {
    let toks = vec![
        ident("raw"),
        punct(';'),
        ident("raw"),
        punct('='),
        ident("false"),
        punct(';'),
        lit("a"),
    ];
    let unit = ClassListToken::parse(&toks, default_crate()).ok().unwrap();
    assert!(!unit.raw);
    assert_eq!(unit.values.len(), 1);
}

#[test]
fn empty_invocation_has_no_entries() {
    let unit = ClassListToken::parse(&Vec::new(), default_crate()).ok().unwrap();
    assert!(!unit.raw);
    assert!(unit.values.is_empty());
}

#[test]
fn deferred_code_is_a_closure() {
    let code = class_list(&scenario_entries(), default_crate()).ok().unwrap();
    assert!(matches!(code.first(), Some(Emit::Open(Delim::Brace))));
    assert!(matches!(code.last(), Some(Emit::Close(Delim::Brace))));
    let names = idents(&code);
    assert!(names.contains(&"move".to_string()));
    assert_eq!(names.iter().filter(|n| *n == "toggled_class").count(), 3);
    assert!(names.contains(&"join_class_list".to_string()));
}

#[test]
fn raw_code_differs_only_by_the_closure() {
    let mut raw_toks = vec![ident("raw"), punct(';')];
    raw_toks.extend(scenario_entries());
    let raw = class_list(&raw_toks, default_crate()).ok().unwrap();
    let deferred = class_list(&scenario_entries(), default_crate()).ok().unwrap();
    assert_eq!(deferred.len(), raw.len() + 3);
    assert!(!idents(&raw).contains(&"move".to_string()));
}

#[test]
fn clone_statements_come_first() {
    let mut toks = vec![ident("clone")];
    toks.push(Tok::Group(Delim::Bracket, vec![ident("x"), punct(','), ident("y")]));
    toks.push(ident("x"));
    let unit = ClassListToken::parse(&toks, default_crate()).ok().unwrap();
    let code = generate(&unit);
    let names = idents(&code);
    let lets: Vec<usize> = names
        .iter()
        .enumerate()
        .filter(|(_, n)| *n == "let")
        .map(|(i, _)| i)
        .collect();
    assert_eq!(lets.len(), 2);
    assert_eq!(names[lets[0] + 1], "x");
    assert_eq!(names[lets[1] + 1], "y");
    let mv = names.iter().position(|n| n == "move").unwrap();
    assert!(lets[1] < mv);
}

#[test]
fn parse_error_is_reported() {
    let toks = vec![ident("clone"), ident("x")];
    assert!(matches!(
        class_list(&toks, default_crate()),
        Err(ParseError { pos: 0, kind: ParseErrorKind::MalformedOption })
    ));
}
