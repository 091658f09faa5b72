use gettext_extractor::config::{get_field, get_pattern_vec, get_usize, Json};
use gettext_extractor::navigator::Navigator;
use gettext_extractor::registry::{ConfigError, Function, Registry};
use gettext_extractor::syntax::{Argument, CallSite, Callee, Module};

fn s(x: &str) -> String {
    x.to_string()
}

fn obj(members: Vec<(&str, Json)>) -> Json {
    Json::Object(members.into_iter().map(|(k, v)| (s(k), v)).collect())
}

fn strs(items: &[&str]) -> Json {
    Json::Array(items.iter().map(|x| Json::Str(s(x))).collect())
}

fn keys() -> Vec<String> {
    vec![s("include"), s("exclude")]
}

fn document(functions: Json) -> Json {
    obj(vec![
        ("functions", functions),
        ("include", strs(&["**/*.ts", "**/*.tsx"])),
        ("exclude", Json::Array(vec![Json::Str(s("node_modules/**")), Json::UInt(3)])),
        ("base", Json::Str(s("src"))),
    ])
}

#[test]
fn config_document_round_trip() {
    let doc = document(obj(vec![("t", obj(vec![("text", Json::UInt(0))]))]));
    let mut n = Navigator::new(Registry::defaults());
    let p = n.get_walker_config(&doc, &keys()).unwrap();
    assert_eq!(p.base, "src");
    assert_eq!(p.patterns, vec![s("**/*.ts"), s("**/*.tsx"), s("node_modules/**")]);
    assert_eq!(n.visitor.functions.lookup(&s("t")), Some(Function { text: 0, context: None, plural: None }));
    assert_eq!(n.visitor.functions.lookup(&s("gettext")), None);
    let call = CallSite {
        callee: Callee::Ident(s("t")),
        args: vec![Argument::Literal(s("Hello"))],
    };
    n.parse(&Module { calls: vec![call] }, s("a.ts"));
    assert_eq!(n.visitor.stats.usage_of(&s("t")), 1);
    let m = n.visitor.message(&s(""), &s("Hello")).unwrap();
    assert_eq!(m.context, "");
}

#[test]
fn config_positions_from_document() {
    let doc = document(obj(vec![(
        "tr",
        obj(vec![("text", Json::UInt(1)), ("context", Json::UInt(0)), ("plural", Json::Str(s("2")))]),
    )]));
    let mut n = Navigator::new(Registry::defaults());
    n.get_walker_config(&doc, &keys()).unwrap();
    assert_eq!(n.visitor.functions.lookup(&s("tr")), Some(Function { text: 1, context: Some(0), plural: None }));
}

#[test]
fn config_without_text_fails() {
    let doc = document(obj(vec![("t", obj(vec![("context", Json::UInt(0))]))]));
    let mut n = Navigator::new(Registry::defaults());
    assert_eq!(n.get_walker_config(&doc, &keys()).err(), Some(ConfigError::MissingText(s("t"))));
    // the driver keeps its table
    assert!(n.visitor.functions.lookup(&s("gettext")).is_some());
}

#[test]
fn config_without_functions_fails() {
    let doc = obj(vec![("base", Json::Str(s("src")))]);
    let mut n = Navigator::new(Registry::defaults());
    assert_eq!(n.get_walker_config(&doc, &keys()).err(), Some(ConfigError::MissingFunctions));
    let doc = obj(vec![("functions", strs(&["gettext"]))]);
    assert_eq!(n.get_walker_config(&doc, &keys()).err(), Some(ConfigError::MissingFunctions));
}

#[test]
fn config_without_pattern_list_fails() {
    let doc = obj(vec![
        ("functions", obj(vec![])),
        ("include", strs(&["a"])),
        ("exclude", Json::Str(s("b"))),
        ("base", Json::Str(s("src"))),
    ]);
    let mut n = Navigator::new(Registry::defaults());
    assert_eq!(n.get_walker_config(&doc, &keys()).err(), Some(ConfigError::MissingPatterns(s("exclude"))));
    let doc = obj(vec![("functions", obj(vec![])), ("base", Json::Str(s("src")))]);
    assert_eq!(n.get_walker_config(&doc, &keys()).err(), Some(ConfigError::MissingPatterns(s("include"))));
}

#[test]
fn config_without_base_fails() {
    let doc = obj(vec![
        ("functions", obj(vec![])),
        ("include", strs(&[])),
        ("exclude", strs(&[])),
        ("base", Json::UInt(1)),
    ]);
    let mut n = Navigator::new(Registry::defaults());
    assert_eq!(n.get_walker_config(&doc, &keys()).err(), Some(ConfigError::MissingBase));
}

#[test]
fn config_from_arguments() {
    let mut n = Navigator::new(Registry::from_config(vec![(s("t"), Some(0), None, None)]).unwrap());
    let p = n.get_walker_config_from_args(s("web"), vec![s("*.ts")], vec![s("*.d.ts"), s("x")]);
    assert_eq!(p.base, "web");
    assert_eq!(p.patterns, vec![s("*.ts"), s("*.d.ts"), s("x")]);
    assert!(n.visitor.functions.lookup(&s("npgettext")).is_some());
    assert!(n.visitor.functions.lookup(&s("t")).is_none());
}

#[test]
fn json_helpers() {
    let v = obj(vec![("a", Json::UInt(7)), ("b", Json::OtherNumber), ("a", Json::UInt(9)), ("c", Json::Null)]);
    assert_eq!(get_usize(&v, "a"), Some(9));
    assert_eq!(get_usize(&v, "b"), None);
    assert_eq!(get_usize(&v, "z"), None);
    assert_eq!(get_usize(&Json::UInt(1), "a"), None);
    assert!(matches!(get_field(&v, "c"), Some(Json::Null)));
    let w = obj(vec![("p", Json::Array(vec![Json::Str(s("x")), Json::Bool(true), Json::Str(s("y"))]))]);
    assert_eq!(get_pattern_vec(&w, "p"), Some(vec![s("x"), s("y")]));
    assert_eq!(get_pattern_vec(&w, "q"), None);
}

#[test]
fn sorted_usage_most_used_first() {
    let mut n = Navigator::new(Registry::defaults());
    let call = |name: &str, args: Vec<Argument>| CallSite { callee: Callee::Ident(s(name)), args };
    let lit = |x: &str| Argument::Literal(s(x));
    n.parse(
        &Module {
            calls: vec![
                call("gettext", vec![lit("a")]),
                call("pgettext", vec![lit("c"), lit("b")]),
                call("pgettext", vec![lit("c"), lit("d")]),
                call("ngettext", vec![lit("e"), lit("es")]),
                call("pgettext", vec![lit("c"), lit("f")]),
            ],
        },
        s("a.ts"),
    );
    let sorted = n.visitor.stats.sorted_usage();
    let counts: Vec<usize> = sorted.iter().map(|p| p.1).collect();
    assert_eq!(counts, vec![3, 1, 1]);
    assert_eq!(sorted[0].0, "pgettext");
    let mut names: Vec<String> = sorted.iter().map(|p| p.0.clone()).collect();
    names.sort();
    assert_eq!(names, vec![s("gettext"), s("ngettext"), s("pgettext")]);
}
