use gettext_extractor::navigator::Navigator;
use gettext_extractor::registry::{ConfigError, Function, Registry};
use gettext_extractor::syntax::{get_argument, string_from_option, Argument, CallSite, Callee, Module};

fn lit(s: &str) -> Argument {
    Argument::Literal(s.to_string())
}

fn call(name: &str, args: Vec<Argument>) -> CallSite {
    CallSite { callee: Callee::Ident(name.to_string()), args }
}

fn module(calls: Vec<CallSite>) -> Module {
    Module { calls }
}

fn s(x: &str) -> String {
    x.to_string()
}

fn refs(n: &Navigator, context: &str, text: &str) -> Vec<String> {
    n.visitor.message(&s(context), &s(text)).unwrap().references.clone()
}

#[test]
fn same_context_and_text_in_two_files_merge() {
    let mut n = Navigator::new(Registry::defaults());
    n.parse(&module(vec![call("pgettext", vec![lit("menu"), lit("Open")])]), s("A"));
    n.parse(&module(vec![call("pgettext", vec![lit("menu"), lit("Open")])]), s("B"));
    assert_eq!(n.visitor.catalog.len(), 1);
    let m = n.visitor.message(&s("menu"), &s("Open")).unwrap();
    assert_eq!(m.context, "menu");
    assert_eq!(m.text, "Open");
    assert_eq!(m.text_plural, None);
    assert_eq!(refs(&n, "menu", "Open"), vec![s("A"), s("B")]);
    assert_eq!(n.visitor.stats.usages, 2);
    assert_eq!(n.visitor.stats.messages, 1);
    assert_eq!(n.visitor.stats.context, 1);
    assert_eq!(n.visitor.stats.files_parsed, 2);
    assert_eq!(n.visitor.stats.files_with_messages, 2);
    assert_eq!(n.visitor.stats.usage_of(&s("pgettext")), 2);
}

#[test]
fn plural_kept_when_extra_argument_is_not_literal() {
    let mut n = Navigator::new(Registry::defaults());
    let c = call("ngettext", vec![lit("1 item"), lit("%d items"), Argument::Other]);
    n.parse(&module(vec![c]), s("a.ts"));
    let m = n.visitor.message(&s(""), &s("1 item")).unwrap();
    assert_eq!(m.text_plural, Some(s("%d items")));
    assert_eq!(n.visitor.stats.plural, 1);
    assert_eq!(n.visitor.stats.messages, 1);
}

#[test]
fn variable_text_is_skipped() {
    let reg = Registry::from_config(vec![(s("f"), Some(0), None, None)]).unwrap();
    let mut n = Navigator::new(reg);
    n.parse(&module(vec![call("f", vec![Argument::Other])]), s("a.ts"));
    assert!(n.visitor.catalog.is_empty());
    assert_eq!(n.visitor.stats.usages, 0);
    assert_eq!(n.visitor.stats.messages, 0);
    assert_eq!(n.visitor.stats.context, 0);
    assert_eq!(n.visitor.stats.files_with_messages, 0);
    assert!(n.visitor.stats.usage_breakdown.is_empty());
    assert_eq!(n.visitor.stats.files_parsed, 1);
}

#[test]
fn file_without_matches_counts_as_parsed_only() {
    let mut n = Navigator::new(Registry::defaults());
    let calls = vec![
        call("print", vec![lit("hello")]),
        CallSite { callee: Callee::Other, args: vec![lit("x")] },
        CallSite { callee: Callee::Member(None), args: vec![lit("y")] },
    ];
    n.parse(&module(calls), s("a.ts"));
    n.parse(&module(vec![]), s("b.ts"));
    assert_eq!(n.visitor.stats.files_parsed, 2);
    assert_eq!(n.visitor.stats.files_with_messages, 0);
    assert!(n.visitor.catalog.is_empty());
}

fn run_corpus() -> Navigator {
    let mut n = Navigator::new(Registry::defaults());
    n.parse(
        &module(vec![
            call("gettext", vec![lit("Hello")]),
            call("npgettext", vec![lit("cart"), lit("item"), lit("items")]),
        ]),
        s("a.ts"),
    );
    n.parse(
        &module(vec![
            call("gettext", vec![lit("Hello")]),
            call("pgettext", vec![lit("cart"), lit("Checkout")]),
        ]),
        s("b.ts"),
    );
    n
}

#[test]
fn two_runs_give_equal_catalogs() {
    let a = run_corpus();
    let b = run_corpus();
    assert_eq!(a.visitor.catalog.len(), b.visitor.catalog.len());
    for (x, y) in a.visitor.catalog.iter().zip(b.visitor.catalog.iter()) {
        assert_eq!(x.text, y.text);
        assert_eq!(x.context, y.context);
        assert_eq!(x.text_plural, y.text_plural);
        assert_eq!(x.references, y.references);
    }
    assert_eq!(a.visitor.stats.usages, b.visitor.stats.usages);
    assert_eq!(a.visitor.stats.usage_breakdown, b.visitor.stats.usage_breakdown);
    assert_eq!(a.visitor.stats.usages, 4);
    assert_eq!(a.visitor.stats.messages, 3);
    assert_eq!(a.visitor.stats.context, 2);
    assert_eq!(a.visitor.stats.plural, 1);
}

#[test]
fn configured_registry_round_trip() {
    let reg = Registry::from_config(vec![(s("t"), Some(0), None, None)]).unwrap();
    let mut n = Navigator::new(reg);
    n.parse(&module(vec![call("t", vec![lit("Hello")])]), s("a.ts"));
    assert_eq!(n.visitor.stats.usage_of(&s("t")), 1);
    assert_eq!(n.visitor.catalog.len(), 1);
    let m = n.visitor.message(&s(""), &s("Hello")).unwrap();
    assert_eq!(m.context, "");
    assert_eq!(m.text, "Hello");
    // the defaults are replaced wholesale
    n.parse(&module(vec![call("gettext", vec![lit("Other")])]), s("b.ts"));
    assert_eq!(n.visitor.catalog.len(), 1);
}

#[test]
fn missing_text_index_fails_to_load() {
    let r = Registry::from_config(vec![
        (s("t"), Some(0), None, None),
        (s("bad"), None, Some(0), None),
        (s("worse"), None, None, None),
    ]);
    assert_eq!(r.err(), Some(ConfigError::MissingText(s("bad"))));
}

#[test]
fn config_positions_are_kept() {
    let reg = Registry::from_config(vec![(s("tp"), Some(2), Some(1), Some(0))]).unwrap();
    assert_eq!(reg.lookup(&s("tp")), Some(Function { text: 2, context: Some(1), plural: Some(0) }));
    assert_eq!(reg.lookup(&s("gettext")), None);
    let mut n = Navigator::new(reg);
    n.parse(&module(vec![call("tp", vec![lit("ps"), lit("ctx"), lit("txt")])]), s("a.ts"));
    let m = n.visitor.message(&s("ctx"), &s("txt")).unwrap();
    assert_eq!(m.text_plural, Some(s("ps")));
}

#[test]
fn later_config_entry_replaces_earlier() {
    let reg = Registry::from_config(vec![
        (s("t"), Some(0), None, None),
        (s("t"), Some(1), None, None),
    ])
    .unwrap();
    assert_eq!(reg.lookup(&s("t")), Some(Function { text: 1, context: None, plural: None }));
}

#[test]
fn defaults_table() {
    let reg = Registry::defaults();
    assert_eq!(reg.lookup(&s("gettext")), Some(Function { text: 0, context: None, plural: None }));
    assert_eq!(reg.lookup(&s("ngettext")), Some(Function { text: 0, context: None, plural: Some(1) }));
    assert_eq!(reg.lookup(&s("pgettext")), Some(Function { text: 1, context: Some(0), plural: None }));
    assert_eq!(
        reg.lookup(&s("npgettext")),
        Some(Function { text: 1, context: Some(0), plural: Some(2) })
    );
    assert_eq!(reg.lookup(&s("dgettext")), None);
}

#[test]
fn callee_shapes_resolve_to_one_name() {
    let mut n = Navigator::new(Registry::defaults());
    let calls = vec![
        CallSite { callee: Callee::Member(Some(s("gettext"))), args: vec![lit("a")] },
        CallSite { callee: Callee::OptionalMember(Some(s("gettext"))), args: vec![lit("b")] },
        CallSite { callee: Callee::OptionalMember(None), args: vec![lit("c")] },
        CallSite { callee: Callee::Ident(s("gettext")), args: vec![lit("d")] },
    ];
    n.parse(&module(calls), s("a.ts"));
    assert_eq!(n.visitor.catalog.len(), 3);
    assert!(n.visitor.message(&s(""), &s("c")).is_none());
    let texts: Vec<String> = n.visitor.catalog.iter().map(|m| m.text.clone()).collect();
    assert_eq!(texts, vec![s("a"), s("b"), s("d")]);
}

#[test]
fn first_plural_wins_on_duplicate() {
    let mut n = Navigator::new(Registry::defaults());
    n.parse(
        &module(vec![
            call("gettext", vec![lit("file")]),
            call("ngettext", vec![lit("file"), lit("files")]),
        ]),
        s("a.ts"),
    );
    let m = n.visitor.message(&s(""), &s("file")).unwrap();
    assert_eq!(m.text_plural, None);
    assert_eq!(n.visitor.stats.plural, 0);
    assert_eq!(n.visitor.stats.usages, 2);
    assert_eq!(refs(&n, "", "file"), vec![s("a.ts")]);
}

#[test]
fn missing_or_non_literal_context_defaults_to_empty() {
    let mut n = Navigator::new(Registry::defaults());
    n.parse(
        &module(vec![
            call("pgettext", vec![Argument::Other, lit("Save")]),
            call("npgettext", vec![Argument::Other, lit("Save"), Argument::Other]),
        ]),
        s("a.ts"),
    );
    assert_eq!(n.visitor.catalog.len(), 1);
    let m = n.visitor.message(&s(""), &s("Save")).unwrap();
    assert_eq!(m.text_plural, None);
    assert_eq!(n.visitor.stats.context, 1);
    assert_eq!(n.visitor.stats.usage_of(&s("pgettext")), 1);
    assert_eq!(n.visitor.stats.usage_of(&s("npgettext")), 1);
    assert_eq!(n.visitor.stats.usage_of(&s("gettext")), 0);
}

#[test]
fn missing_text_argument_is_skipped() {
    let mut n = Navigator::new(Registry::defaults());
    n.parse(&module(vec![call("pgettext", vec![lit("menu")])]), s("a.ts"));
    n.parse(&module(vec![call("gettext", vec![])]), s("b.ts"));
    assert!(n.visitor.catalog.is_empty());
    assert_eq!(n.visitor.stats.usages, 0);
    assert_eq!(n.visitor.stats.context, 0);
}

#[test]
fn same_text_in_two_contexts_gives_two_entries() {
    let mut n = Navigator::new(Registry::defaults());
    n.parse(
        &module(vec![
            call("pgettext", vec![lit("menu"), lit("Open")]),
            call("pgettext", vec![lit("door"), lit("Open")]),
            call("gettext", vec![lit("Open")]),
        ]),
        s("a.ts"),
    );
    assert_eq!(n.visitor.catalog.len(), 3);
    assert_eq!(n.visitor.stats.context, 3);
    assert_eq!(n.visitor.contexts, vec![s("menu"), s("door"), s("")]);
    assert_eq!(n.visitor.stats.files_with_messages, 1);
}

#[test]
fn repeated_file_counts_once_with_messages() {
    let mut n = Navigator::new(Registry::defaults());
    n.parse(&module(vec![call("gettext", vec![lit("x")])]), s("a.ts"));
    n.parse(&module(vec![call("gettext", vec![lit("x")])]), s("a.ts"));
    assert_eq!(n.visitor.stats.files_parsed, 2);
    assert_eq!(n.visitor.stats.files_with_messages, 1);
    assert_eq!(refs(&n, "", "x"), vec![s("a.ts")]);
    assert_eq!(n.visitor.stats.usages, 2);
}

#[test]
fn argument_helpers() {
    let a = lit("v");
    assert_eq!(get_argument(Some(&a)), Some(&s("v")));
    assert_eq!(get_argument(Some(&Argument::Other)), None);
    assert_eq!(get_argument(None), None);
    let c = call("f", vec![Argument::Other, lit("w")]);
    assert_eq!(string_from_option(&c, Some(1)), Some(s("w")));
    assert_eq!(string_from_option(&c, Some(0)), None);
    assert_eq!(string_from_option(&c, Some(5)), None);
    assert_eq!(string_from_option(&c, None), None);
    assert_eq!(c.callee_name(), Some(&s("f")));
}
