use std::collections::HashSet;

use askama_derive::config::{Config, RawConfig};
use askama_derive::error::ErrorKind;
use askama_derive::paths::{join, sibling};
use askama_derive::pipeline::{Action, Event, Outcome, Pipeline, Print, Stage};
use askama_derive::report::{decimal_string, CompileError, FileInfo};
use askama_derive::source::{config_document, config_file_path, trim_template_source};

fn two_dirs() -> Config {
    let mut config = Config::new(RawConfig::empty(), "/p", None).unwrap();
    config.dirs = vec!["/p/first".to_string(), "/p/second".to_string()];
    config
}

fn on_disk(paths: &[&str]) -> HashSet<String> {
    paths.iter().map(|s| s.to_string()).collect()
}

#[test]
fn sibling_takes_priority() {
    let config = two_dirs();
    let disk = on_disk(&["/p/first/dir/b.html", "/p/first/b.html", "/p/second/b.html"]);
    let found = config.find_template("b.html", Some("/p/first/dir/a.html"), |p: &str| disk.contains(p));
    assert_eq!(found, Ok("/p/first/dir/b.html".to_string()));
}

#[test]
fn search_path_in_order() {
    let config = two_dirs();
    let disk = on_disk(&["/p/first/b.html", "/p/second/b.html", "/p/second/c.html"]);
    let probe = |p: &str| disk.contains(p);
    assert_eq!(config.find_template("b.html", Some("/p/first/dir/a.html"), probe), Ok("/p/first/b.html".to_string()));
    assert_eq!(config.find_template("c.html", None, probe), Ok("/p/second/c.html".to_string()));
    assert_eq!(config.find_template("sub/c.html", None, probe).is_err(), true);
}

#[test]
fn template_not_found_message() {
    let config = two_dirs();
    let err = config.find_template("x.html", None, |_: &str| false).unwrap_err();
    assert_eq!(
        err,
        ErrorKind::TemplateNotFound {
            name: "x.html".to_string(),
            dirs: vec!["/p/first".to_string(), "/p/second".to_string()],
        }
    );
    assert_eq!(
        err.message(),
        "template \"x.html\" not found in directories [\"/p/first\", \"/p/second\"]"
    );
}

#[test]
fn path_joining() {
    assert_eq!(join("/p/templates", "a.html"), "/p/templates/a.html");
    assert_eq!(join("/p/templates/", "a.html"), "/p/templates/a.html");
    assert_eq!(join("/p", "/abs/a.html"), "/abs/a.html");
    assert_eq!(join("", "a.html"), "a.html");
    assert_eq!(sibling("/p/templates/sub/b.html", "c.html"), "/p/templates/sub/c.html");
    assert_eq!(sibling("/p/templates/sub/b.html", "sub1/d.html"), "/p/templates/sub/sub1/d.html");
    assert_eq!(sibling("b.html", "c.html"), "c.html");
}

#[test]
fn messages_of_each_kind() {
    assert_eq!(ErrorKind::DuplicateSyntaxName("foo".into()).message(), "syntax \"foo\" is already defined");
    assert_eq!(ErrorKind::UnknownDefaultSyntax("foo".into()).message(), "default syntax \"foo\" not found");
    assert_eq!(ErrorKind::InvalidDelimiterLength.message(), "length of delimiters must be two");
    assert_eq!(
        ErrorKind::AmbiguousDelimiterSet {
            block_start: "<%".into(),
            comment_start: "{#".into(),
            expr_start: "[{".into()
        }
        .message(),
        "bad delimiters block_start: <%, comment_start: {#, expr_start: [{, needs one of the two characters in common"
    );
    assert_eq!(ErrorKind::ConfigFileMissingExplicit("/p".into()).message(), "`/p` does not exist");
    assert_eq!(ErrorKind::SourceReadFailure("a.html".into()).message(), "unable to open template file 'a.html'");
    assert_eq!(ErrorKind::UnresolvedInheritedBlock("body".into()).message(), "cannot find block body");
    assert_eq!(ErrorKind::ConfigDocumentMalformed("bad".into()).message(), "invalid configuration document: bad");
    assert_eq!(ErrorKind::GenerationFailure("gen".into()).message(), "gen");
    assert_eq!(ErrorKind::DependencyDiscoveryFailure("dep".into()).message(), "dep");
}

#[test]
fn location_with_excerpt() {
    let source = "line one\n  {{ oops }} tail\nlast";
    let info = FileInfo::new("/work/t/a.html", Some(source), Some("oops }} tail\nlast"));
    assert_eq!(info.render(Some("/work")), "\n  --> t/a.html:2:6\noops }} tail");
    let err = CompileError::new(ErrorKind::GenerationFailure("failed".into()), Some(info));
    assert_eq!(err.render(None), "failed\n  --> /work/t/a.html:2:6\noops }} tail");
}

#[test]
fn location_first_occurrence() {
    let info = FileInfo::new("a.html", Some("ab\nab"), Some("ab"));
    assert_eq!(info.render(None), "\n  --> a.html:1:1\nab");
}

#[test]
fn location_path_only() {
    let info = FileInfo::new("/work/t/a.html", None, None);
    assert_eq!(info.render(Some("/work")), "\n --> t/a.html");
    assert_eq!(info.render(Some("/elsewhere")), "\n --> /work/t/a.html");
    let missing = FileInfo::new("a.html", Some("abc"), Some("zz"));
    assert_eq!(missing.render(None), "\n --> a.html");
    let err = CompileError::new(ErrorKind::InvalidDelimiterLength, None);
    assert_eq!(err.render(None), "length of delimiters must be two");
}

#[test]
fn decimals() {
    assert_eq!(decimal_string(0), "0");
    assert_eq!(decimal_string(7), "7");
    assert_eq!(decimal_string(10), "10");
    assert_eq!(decimal_string(1234509), "1234509");
}

#[test]
fn config_loading_decisions() {
    assert_eq!(config_file_path("/p", None), "/p/askama.toml");
    assert_eq!(config_file_path("/p", Some("cfg/other.toml")), "/p/cfg/other.toml");
    assert_eq!(config_document("/p", false, None), Ok(String::new()));
    assert_eq!(config_document("/p", true, None), Err(ErrorKind::ConfigFileMissingExplicit("/p".into())));
    assert_eq!(config_document("/p", true, Some("x = 1".into())), Ok("x = 1".to_string()));
}

#[test]
fn template_source_trimmed() {
    assert_eq!(trim_template_source("bar\n"), "bar");
    assert_eq!(trim_template_source("bar\n\n"), "bar\n");
    assert_eq!(trim_template_source("bar"), "bar");
    assert_eq!(trim_template_source(""), "");
}

#[test]
fn pipeline_without_inheritance() {
    let (p, a) = Pipeline::start(Print::All, None);
    assert_eq!(a, Action::LoadConfig);
    let (p, a) = p.step(Event::Finished);
    assert_eq!(a, Action::ResolveInput);
    let (p, a) = p.step(Event::Finished);
    assert_eq!(a, Action::DiscoverDependencies);
    let (p, a) = p.step(Event::Finished);
    assert_eq!(a, Action::BuildContexts);
    let (p, a) = p.step(Event::ContextsBuilt { inherits: false });
    assert_eq!(a, Action::Generate { print_ast: true });
    let (p, a) = p.step(Event::Generated("code".into()));
    assert_eq!(a, Action::Emit { code: "code".into(), print_code: true });
    assert_eq!(p.stage, Stage::Done);
    assert!(!p.accepts(&Event::Finished));
}

#[test]
fn pipeline_with_heritage() {
    let (p, _) = Pipeline::start(Print::Code, Some("body".into()));
    let (p, _) = p.step(Event::Finished);
    let (p, _) = p.step(Event::Finished);
    let (p, _) = p.step(Event::Finished);
    let (p, a) = p.step(Event::ContextsBuilt { inherits: true });
    assert_eq!(a, Action::BuildHeritage);
    let ok = p.clone().step(Event::HeritageBuilt { blocks: vec!["head".into(), "body".into()] });
    assert_eq!(ok.1, Action::Generate { print_ast: false });
    let (q, a) = p.step(Event::HeritageBuilt { blocks: vec!["head".into()] });
    assert_eq!(q.stage, Stage::Failed);
    assert_eq!(a, Action::Fail(CompileError::new(ErrorKind::UnresolvedInheritedBlock("body".into()), None)));
}

#[test]
fn pipeline_failure_stops() {
    let (p, _) = Pipeline::start(Print::Off, None);
    let err = CompileError::new(ErrorKind::ConfigFileMissingExplicit("/p".into()), None);
    assert!(p.accepts(&Event::Failed(err.clone())));
    assert!(!p.accepts(&Event::Generated("x".into())));
    let (p, a) = p.step(Event::Failed(err.clone()));
    assert_eq!(a, Action::Fail(err));
    assert_eq!(p.stage, Stage::Failed);
}

#[test]
fn fallback_keeps_primary_error() {
    let primary = CompileError::new(ErrorKind::InvalidDelimiterLength, None);
    let secondary = CompileError::new(ErrorKind::GenerationFailure("skeleton".into()), None);
    let out = Outcome::with_fallback(primary.clone(), Err(secondary));
    assert_eq!(out.error, Some(primary.clone()));
    assert_eq!(out.code, None);
    let out = Outcome::with_fallback(primary.clone(), Ok("stub".into()));
    assert_eq!(out.error, Some(primary));
    assert_eq!(out.code, Some("stub".to_string()));
    let ok = Outcome::success("code".into());
    assert_eq!(ok.error, None);
}

#[test]
fn fallback_config_is_default() {
    let c = Config::fallback("/p");
    assert_eq!(c.dirs, vec!["/p/templates".to_string()]);
    assert_eq!(c.default_syntax, "default");
    assert_eq!(c.escapers.len(), 3);
}

fn project_config() -> Config {
    Config::new(RawConfig::empty(), "/project", None).unwrap()
}

fn project_disk() -> HashSet<String> {
    on_disk(&[
        "/project/templates/a.html",
        "/project/templates/b.html",
        "/project/templates/sub/b.html",
        "/project/templates/sub/c.html",
        "/project/templates/sub/sub1/d.html",
    ])
}

fn rooted(path: &str) -> String {
    format!("/project/templates/{path}")
}

#[test]
fn get_source() {
    let disk = project_disk();
    let path = project_config().find_template("b.html", None, |p: &str| disk.contains(p)).unwrap();
    assert_eq!(path, rooted("b.html"));
    // The file holds "bar" and a final line break.
    assert_eq!(trim_template_source("bar\n"), "bar");
}

#[test]
fn find_absolute() {
    let disk = project_disk();
    let config = project_config();
    let probe = |p: &str| disk.contains(p);
    let root = config.find_template("a.html", None, probe).unwrap();
    let path = config.find_template("sub/b.html", Some(root.as_str()), probe).unwrap();
    assert_eq!(path, rooted("sub/b.html"));
}

#[test]
#[should_panic]
fn find_relative_nonexistent() {
    let disk = project_disk();
    let config = project_config();
    let probe = |p: &str| disk.contains(p);
    let root = config.find_template("a.html", None, probe).unwrap();
    config.find_template("c.html", Some(root.as_str()), probe).unwrap();
}

#[test]
fn find_relative() {
    let disk = project_disk();
    let config = project_config();
    let probe = |p: &str| disk.contains(p);
    let root = config.find_template("sub/b.html", None, probe).unwrap();
    let path = config.find_template("c.html", Some(root.as_str()), probe).unwrap();
    assert_eq!(path, rooted("sub/c.html"));
}

#[test]
fn find_relative_sub() {
    let disk = project_disk();
    let config = project_config();
    let probe = |p: &str| disk.contains(p);
    let root = config.find_template("sub/b.html", None, probe).unwrap();
    let path = config.find_template("sub1/d.html", Some(root.as_str()), probe).unwrap();
    assert_eq!(path, rooted("sub/sub1/d.html"));
}
