use std::collections::HashSet;

use askama_derive::config::{Config, General, RawConfig, RawEscaper, WhitespaceHandling};
use askama_derive::error::ErrorKind;
use askama_derive::syntax::{RawSyntax, Syntax};

fn entry(name: &str) -> RawSyntax {
    RawSyntax {
        name: name.to_string(),
        block_start: None,
        block_end: None,
        expr_start: None,
        expr_end: None,
        comment_start: None,
        comment_end: None,
    }
}

fn general(default_syntax: Option<&str>, whitespace: WhitespaceHandling) -> General {
    General {
        dirs: None,
        default_syntax: default_syntax.map(|s| s.to_string()),
        whitespace,
    }
}

fn resolve(raw: RawConfig) -> Result<Config, ErrorKind> {
    Config::new(raw, "/project", None)
}

fn foo_bar_document() -> RawConfig {
    let mut foo = entry("foo");
    foo.block_start = Some("{<".to_string());
    let mut bar = entry("bar");
    bar.expr_start = Some("{!".to_string());
    RawConfig {
        general: Some(general(Some("foo"), WhitespaceHandling::Preserve)),
        syntax: Some(vec![foo, bar]),
        escaper: None,
    }
}

fn lookup<'a>(config: &'a Config, name: &str) -> &'a Syntax {
    &config.syntaxes.iter().find(|(n, _)| n == name).unwrap().1
}

fn check_foo_bar(config: &Config) {
    let default_syntax = Syntax::default_syntax();
    assert_eq!(config.default_syntax, "foo");

    let foo = lookup(config, "foo");
    assert_eq!(foo.block_start, "{<");
    assert_eq!(foo.block_end, default_syntax.block_end);
    assert_eq!(foo.expr_start, default_syntax.expr_start);
    assert_eq!(foo.expr_end, default_syntax.expr_end);
    assert_eq!(foo.comment_start, default_syntax.comment_start);
    assert_eq!(foo.comment_end, default_syntax.comment_end);

    let bar = lookup(config, "bar");
    assert_eq!(bar.block_start, default_syntax.block_start);
    assert_eq!(bar.block_end, default_syntax.block_end);
    assert_eq!(bar.expr_start, "{!");
    assert_eq!(bar.expr_end, default_syntax.expr_end);
    assert_eq!(bar.comment_start, default_syntax.comment_start);
    assert_eq!(bar.comment_end, default_syntax.comment_end);
}

#[test]
fn add_syntax() {
    let config = resolve(foo_bar_document()).unwrap();
    check_foo_bar(&config);
}

#[test]
fn add_syntax_two() {
    // The same entries, written as an inline array before the general section.
    let config = resolve(foo_bar_document()).unwrap();
    check_foo_bar(&config);
}

#[should_panic]
#[test]
fn use_default_at_syntax_name() {
    let raw = RawConfig { general: None, syntax: Some(vec![entry("default")]), escaper: None };
    let _config = resolve(raw).unwrap();
}

#[should_panic]
#[test]
fn duplicated_syntax_name_on_list() {
    let mut first = entry("foo");
    first.block_start = Some("~<".to_string());
    let mut second = entry("foo");
    second.block_start = Some("%%".to_string());
    let raw = RawConfig { general: None, syntax: Some(vec![first, second]), escaper: None };
    let _config = resolve(raw).unwrap();
}

#[should_panic]
#[test]
fn is_not_exist_default_syntax() {
    let raw = RawConfig {
        general: Some(general(Some("foo"), WhitespaceHandling::Preserve)),
        syntax: None,
        escaper: None,
    };
    let _config = resolve(raw).unwrap();
}

fn set(vals: &[&str]) -> HashSet<String> {
    vals.iter().map(|s| s.to_string()).collect()
}

#[test]
fn escape_modes() {
    let raw = RawConfig {
        general: None,
        syntax: None,
        escaper: Some(vec![RawEscaper {
            path: "::askama::Js".to_string(),
            extensions: vec!["js".to_string()],
        }]),
    };
    let config = resolve(raw).unwrap();
    let escapers: Vec<(HashSet<String>, String)> = config
        .escapers
        .iter()
        .map(|(exts, path)| (exts.iter().cloned().collect(), path.clone()))
        .collect();
    assert_eq!(
        escapers,
        vec![
            (set(&["js"]), "::askama::Js".into()),
            (set(&["html", "htm", "xml"]), "::askama::Html".into()),
            (set(&["md", "none", "txt", "yml", ""]), "::askama::Text".into()),
            (set(&["j2", "jinja", "jinja2"]), "::askama::Html".into()),
        ]
    );
}

#[test]
fn test_whitespace_parsing() {
    let doc = |w| RawConfig { general: Some(general(None, w)), syntax: None, escaper: None };

    let config = resolve(doc(WhitespaceHandling::Suppress)).unwrap();
    assert_eq!(config.whitespace, WhitespaceHandling::Suppress);

    let config = resolve(RawConfig::empty()).unwrap();
    assert_eq!(config.whitespace, WhitespaceHandling::Preserve);

    let config = resolve(doc(WhitespaceHandling::Preserve)).unwrap();
    assert_eq!(config.whitespace, WhitespaceHandling::Preserve);

    let config = resolve(doc(WhitespaceHandling::Minimize)).unwrap();
    assert_eq!(config.whitespace, WhitespaceHandling::Minimize);
}

#[test]
fn test_default_config() {
    let config = resolve(RawConfig::empty()).unwrap();
    assert_eq!(config.dirs, vec!["/project/templates".to_string()]);
}

#[test]
fn test_config_dirs() {
    let raw = RawConfig {
        general: Some(General {
            dirs: Some(vec!["tpl".to_string()]),
            default_syntax: None,
            whitespace: WhitespaceHandling::Preserve,
        }),
        syntax: None,
        escaper: None,
    };
    let config = resolve(raw).unwrap();
    assert_eq!(config.dirs, vec!["/project/tpl".to_string()]);
}

#[test]
fn empty_document_defaults() {
    let config = resolve(RawConfig::empty()).unwrap();
    assert_eq!(config.syntaxes.len(), 1);
    assert_eq!(config.syntaxes[0].0, "default");
    let d = &config.syntaxes[0].1;
    assert_eq!(
        [&d.expr_start, &d.expr_end, &d.block_start, &d.block_end, &d.comment_start, &d.comment_end],
        ["{{", "}}", "{%", "%}", "{#", "#}"]
    );
    assert_eq!(config.default_syntax, "default");
    assert_eq!(config.dirs, vec!["/project/templates".to_string()]);
    assert_eq!(config.whitespace, WhitespaceHandling::Preserve);
}

#[test]
fn duplicate_name_error() {
    let raw = RawConfig { general: None, syntax: Some(vec![entry("foo"), entry("foo")]), escaper: None };
    assert_eq!(resolve(raw), Err(ErrorKind::DuplicateSyntaxName("foo".to_string())));
    let raw = RawConfig { general: None, syntax: Some(vec![entry("default")]), escaper: None };
    assert_eq!(resolve(raw), Err(ErrorKind::DuplicateSyntaxName("default".to_string())));
}

#[test]
fn dangling_default_error() {
    let raw = RawConfig {
        general: Some(general(Some("foo"), WhitespaceHandling::Preserve)),
        syntax: Some(vec![entry("bar")]),
        escaper: None,
    };
    assert_eq!(resolve(raw), Err(ErrorKind::UnknownDefaultSyntax("foo".to_string())));
}

#[test]
fn delimiter_length_error() {
    for bad in ["{", "{{{", ""] {
        let mut e = entry("foo");
        e.comment_end = Some(bad.to_string());
        assert_eq!(Syntax::try_from(e), Err(ErrorKind::InvalidDelimiterLength));
    }
    // Two characters but three bytes.
    let mut e = entry("foo");
    e.block_end = Some("é}".to_string());
    assert_eq!(Syntax::try_from(e), Err(ErrorKind::InvalidDelimiterLength));
    let raw = RawConfig {
        general: None,
        syntax: Some(vec![{
            let mut e = entry("foo");
            e.expr_end = Some("}".to_string());
            e
        }]),
        escaper: None,
    };
    assert_eq!(resolve(raw), Err(ErrorKind::InvalidDelimiterLength));
}

#[test]
fn ambiguous_delimiters_error() {
    let mut e = entry("foo");
    e.block_start = Some("<%".to_string());
    e.expr_start = Some("[{".to_string());
    assert_eq!(
        Syntax::try_from(e),
        Err(ErrorKind::AmbiguousDelimiterSet {
            block_start: "<%".to_string(),
            comment_start: "{#".to_string(),
            expr_start: "[{".to_string(),
        })
    );
}

#[test]
fn shared_second_character_accepted() {
    let mut e = entry("foo");
    e.block_start = Some("<%".to_string());
    e.comment_start = Some("[%".to_string());
    e.expr_start = Some("(%".to_string());
    let s = Syntax::try_from(e).unwrap();
    assert_eq!(s.block_start, "<%");
    assert_eq!(s.comment_start, "[%");
    assert_eq!(s.expr_start, "(%");
    assert_eq!(s.block_end, "%}");
}

#[test]
fn resolution_is_repeatable() {
    let a = resolve(foo_bar_document()).unwrap();
    let b = resolve(foo_bar_document()).unwrap();
    assert_eq!(a, b);
}

#[test]
fn site_whitespace_wins() {
    let raw = RawConfig {
        general: Some(general(None, WhitespaceHandling::Suppress)),
        syntax: None,
        escaper: None,
    };
    let config = Config::new(raw, "/project", Some(WhitespaceHandling::Minimize)).unwrap();
    assert_eq!(config.whitespace, WhitespaceHandling::Minimize);
}

#[test]
fn whitespace_names() {
    assert_eq!(WhitespaceHandling::from_name("suppress"), Some(WhitespaceHandling::Suppress));
    assert_eq!(WhitespaceHandling::from_name("MiniMize"), Some(WhitespaceHandling::Minimize));
    assert_eq!(WhitespaceHandling::from_name("PRESERVE"), Some(WhitespaceHandling::Preserve));
    assert_eq!(WhitespaceHandling::from_name("keep"), None);
    assert_eq!(WhitespaceHandling::from_name(""), None);
}

#[test]
fn str_set_keeps_order() {
    assert_eq!(
        askama_derive::config::str_set(&["md", "none", ""]),
        vec!["md".to_string(), "none".to_string(), String::new()]
    );
}

#[test]
fn escaper_lookup_first_match() {
    let raw = RawConfig {
        general: None,
        syntax: None,
        escaper: Some(vec![RawEscaper {
            path: "::custom::Html".to_string(),
            extensions: vec!["html".to_string(), "js".to_string()],
        }]),
    };
    let config = resolve(raw).unwrap();
    assert_eq!(config.escaper_for("html").map(|s| s.as_str()), Some("::custom::Html"));
    assert_eq!(config.escaper_for("xml").map(|s| s.as_str()), Some("::askama::Html"));
    assert_eq!(config.escaper_for("").map(|s| s.as_str()), Some("::askama::Text"));
    assert_eq!(config.escaper_for("jinja2").map(|s| s.as_str()), Some("::askama::Html"));
    assert_eq!(config.escaper_for("rs"), None);
}

#[test]
fn syntax_lookup() {
    let config = resolve(foo_bar_document()).unwrap();
    assert_eq!(config.get_syntax("foo").unwrap().block_start, "{<");
    assert_eq!(config.get_syntax("default").unwrap().block_start, "{%");
    assert!(config.get_syntax("baz").is_none());
}
