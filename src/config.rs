use vstd::prelude::*;

use crate::error::{views, ErrorKind, ErrorModel};
use crate::paths::{join, join_path};
use crate::syntax::{
    canonical_syntax, merged, syntax_failure, valid_syntax, RawSyntax, Syntax, SyntaxModel,
};

verus! {

/// What happens to the whitespace around template tags.
#[derive(Clone, Copy, Debug, PartialEq, Eq, Structural)]
pub enum WhitespaceHandling {
    /// Whitespace is kept as written. The default.
    Preserve,
    /// All whitespace before and after a tag is removed.
    Suppress,
    /// Whitespace before and after a tag shrinks to one character, a newline if there was one.
    Minimize,
}

/// The `general` section of the configuration document.
#[derive(Clone, Debug, PartialEq, Eq)]
pub struct General {
    pub dirs: Option<Vec<String>>,
    pub default_syntax: Option<String>,
    pub whitespace: WhitespaceHandling,
}

/// An `escaper` entry: an escaper identifier and the file extensions it serves.
#[derive(Clone, Debug, PartialEq, Eq)]
pub struct RawEscaper {
    pub path: String,
    pub extensions: Vec<String>,
}

/// The configuration document as decoded, before any defaults apply.
#[derive(Clone, Debug, PartialEq, Eq)]
pub struct RawConfig {
    pub general: Option<General>,
    pub syntax: Option<Vec<RawSyntax>>,
    pub escaper: Option<Vec<RawEscaper>>,
}

/// The resolved configuration of one compilation.
#[derive(Clone, Debug, PartialEq, Eq)]
pub struct Config {
    /// Directories searched for templates, in order.
    pub dirs: Vec<String>,
    /// Named delimiter sets; the names are unique and the first is `default`.
    pub syntaxes: Vec<(String, Syntax)>,
    /// The name of the syntax used where a template names none.
    pub default_syntax: String,
    /// Extension sets and the escaper each selects; the first match wins.
    pub escapers: Vec<(Vec<String>, String)>,
    pub whitespace: WhitespaceHandling,
}

/// The name of the built-in syntax.
pub open spec fn default_name() -> Seq<char> {
    "default"@
}

/// The built-in escaper rules, appended after the configured ones.
pub open spec fn builtin_escapers() -> Seq<(Seq<Seq<char>>, Seq<char>)> {
    seq![
        (seq!["html"@, "htm"@, "xml"@], "::askama::Html"@),
        (seq!["md"@, "none"@, "txt"@, "yml"@, ""@], "::askama::Text"@),
        (seq!["j2"@, "jinja"@, "jinja2"@], "::askama::Html"@),
    ]
}

pub open spec fn raw_syntaxes(raw: RawConfig) -> Seq<RawSyntax> {
    match raw.syntax {
        Some(v) => v@,
        None => seq![],
    }
}

pub open spec fn raw_escapers(raw: RawConfig) -> Seq<RawEscaper> {
    match raw.escaper {
        Some(v) => v@,
        None => seq![],
    }
}

/// The search path: each configured directory under `root`, or `root/templates`.
pub open spec fn resolved_dirs(raw: RawConfig, root: Seq<char>) -> Seq<Seq<char>> {
    match raw.general {
        Some(g) => match g.dirs {
            Some(d) => views(d@).map_values(|x: Seq<char>| join_path(root, x)),
            None => seq![join_path(root, "templates"@)],
        },
        None => seq![join_path(root, "templates"@)],
    }
}

/// The configured default syntax name, or `default`.
pub open spec fn resolved_default(raw: RawConfig) -> Seq<char> {
    match raw.general {
        Some(g) => match g.default_syntax {
            Some(n) => n@,
            None => default_name(),
        },
        None => default_name(),
    }
}

/// The call-site choice, else the document's, else `Preserve`.
pub open spec fn resolved_whitespace(
    raw: RawConfig,
    site: Option<WhitespaceHandling>,
) -> WhitespaceHandling {
    match site {
        Some(w) => w,
        None => match raw.general {
            Some(g) => g.whitespace,
            None => WhitespaceHandling::Preserve,
        },
    }
}

/// The syntax names known once the first `i` entries are in: `default`, then theirs.
pub open spec fn names_before(entries: Seq<RawSyntax>, i: int) -> Seq<Seq<char>> {
    seq![default_name()] + entries.subrange(0, i).map_values(|e: RawSyntax| e.name@)
}

/// Why entry `i` is refused once the entries before it are in, if it is.
pub open spec fn entry_failure(entries: Seq<RawSyntax>, i: int) -> Option<ErrorModel> {
    match syntax_failure(entries[i]) {
        Some(e) => Some(e),
        None => if names_before(entries, i).contains(entries[i].name@) {
            Some(ErrorModel::DuplicateSyntaxName(entries[i].name@))
        } else {
            None
        },
    }
}

/// The first refusal among the first `n` entries, in document order.
pub open spec fn table_failure(entries: Seq<RawSyntax>, n: nat) -> Option<ErrorModel>
    decreases n,
{
    if n == 0 {
        None
    } else {
        match table_failure(entries, (n - 1) as nat) {
            Some(e) => Some(e),
            None => entry_failure(entries, n - 1),
        }
    }
}

/// Why a document cannot be resolved, if it cannot.
pub open spec fn resolve_failure(raw: RawConfig) -> Option<ErrorModel> {
    let entries = raw_syntaxes(raw);
    match table_failure(entries, entries.len()) {
        Some(e) => Some(e),
        None => if names_before(entries, entries.len() as int).contains(resolved_default(raw)) {
            None
        } else {
            Some(ErrorModel::UnknownDefaultSyntax(resolved_default(raw)))
        },
    }
}

/// The escaper rules as sequences: the configured ones in order, then the built-in ones.
pub open spec fn resolved_escapers(raw: RawConfig) -> Seq<(Seq<Seq<char>>, Seq<char>)> {
    raw_escapers(raw).map_values(|e: RawEscaper| (views(e.extensions@), e.path@))
        + builtin_escapers()
}

/// The names of a syntax table, in order.
pub open spec fn table_names(t: Seq<(String, Syntax)>) -> Seq<Seq<char>> {
    t.map_values(|p: (String, Syntax)| p.0@)
}

/// A configuration as plain values: search path, named delimiter sets,
/// default syntax name, escaper rules and whitespace policy.
pub struct ConfigModel {
    pub dirs: Seq<Seq<char>>,
    pub syntaxes: Seq<(Seq<char>, SyntaxModel)>,
    pub default_syntax: Seq<char>,
    pub escapers: Seq<(Seq<Seq<char>>, Seq<char>)>,
    pub whitespace: WhitespaceHandling,
}

impl Config {
    pub open spec fn syntax_models(&self) -> Seq<(Seq<char>, SyntaxModel)> {
        self.syntaxes@.map_values(|p: (String, Syntax)| (p.0@, p.1@))
    }

    pub open spec fn model(&self) -> ConfigModel {
        ConfigModel {
            dirs: views(self.dirs@),
            syntaxes: self.syntax_models(),
            default_syntax: self.default_syntax@,
            escapers: self.escaper_rules(),
            whitespace: self.whitespace,
        }
    }

    pub open spec fn syntax_names(&self) -> Seq<Seq<char>> {
        table_names(self.syntaxes@)
    }

    pub open spec fn escaper_rules(&self) -> Seq<(Seq<Seq<char>>, Seq<char>)> {
        self.escapers@.map_values(|p: (Vec<String>, String)| (views(p.0@), p.1@))
    }

    /// Names are unique, the first syntax is the built-in one, every syntax
    /// is valid and the default name is among them.
    pub open spec fn wf(&self) -> bool {
        &&& self.syntaxes@.len() >= 1
        &&& self.syntaxes@[0].0@ == default_name()
        &&& self.syntaxes@[0].1@ == canonical_syntax()
        &&& self.syntax_names().no_duplicates()
        &&& forall|i: int| 0 <= i < self.syntaxes@.len() ==> valid_syntax(#[trigger] self.syntaxes@[i].1@)
        &&& self.syntax_names().contains(self.default_syntax@)
    }

    /// The configuration that `raw` resolves to under `root`.
    pub open spec fn resolves_from(
        &self,
        raw: RawConfig,
        root: Seq<char>,
        site: Option<WhitespaceHandling>,
    ) -> bool {
        let entries = raw_syntaxes(raw);
        &&& views(self.dirs@) == resolved_dirs(raw, root)
        &&& self.default_syntax@ == resolved_default(raw)
        &&& self.whitespace == resolved_whitespace(raw, site)
        &&& self.syntax_names() == names_before(entries, entries.len() as int)
        &&& self.syntaxes@[0].1@ == canonical_syntax()
        &&& forall|i: int| 0 <= i < entries.len() ==> #[trigger] self.syntaxes@[i + 1].1@ == merged(entries[i])
        &&& self.escaper_rules() == resolved_escapers(raw)
    }
}

/// The extension strings of an escaper rule, in the order given.
pub fn str_set(vals: &[&str]) -> (r: Vec<String>)
    ensures
        views(r@) == vals@.map_values(|s: &str| s@),
{
    let mut r: Vec<String> = Vec::new();
    let mut i: usize = 0;
    while i < vals.len()
        invariant
            i <= vals@.len(),
            views(r@) == vals@.subrange(0, i as int).map_values(|s: &str| s@),
        decreases vals@.len() - i,
    {
        let ghost before = r@;
        let v = vals[i].to_owned();
        r.push(v);
        i = i + 1;
        assert(vals@.subrange(0, i as int) =~= vals@.subrange(0, i - 1).push(vals@[i - 1]));
        assert(views(r@) =~= views(before).push(v@));
        assert(views(r@) =~= vals@.subrange(0, i as int).map_values(|s: &str| s@));
    }
    assert(vals@.subrange(0, i as int) =~= vals@);
    r
}

fn builtin_escaper_rules() -> (r: Vec<(Vec<String>, String)>)
    ensures
        r@.map_values(|p: (Vec<String>, String)| (views(p.0@), p.1@)) == builtin_escapers(),
{
    let html = str_set(&["html", "htm", "xml"]);
    let text = str_set(&["md", "none", "txt", "yml", ""]);
    let jinja = str_set(&["j2", "jinja", "jinja2"]);
    assert(views(html@) =~= seq!["html"@, "htm"@, "xml"@]);
    assert(views(text@) =~= seq!["md"@, "none"@, "txt"@, "yml"@, ""@]);
    assert(views(jinja@) =~= seq!["j2"@, "jinja"@, "jinja2"@]);
    let r = vec![
        (html, "::askama::Html".to_owned()),
        (text, "::askama::Text".to_owned()),
        (jinja, "::askama::Html".to_owned()),
    ];
    assert(r@.map_values(|p: (Vec<String>, String)| (views(p.0@), p.1@)) =~= builtin_escapers());
    r
}

fn join_all(root: &str, dirs: &Vec<String>) -> (r: Vec<String>)
    ensures
        views(r@) == views(dirs@).map_values(|x: Seq<char>| join_path(root@, x)),
{
    let mut r: Vec<String> = Vec::new();
    let mut i: usize = 0;
    while i < dirs.len()
        invariant
            i <= dirs@.len(),
            views(r@) == views(dirs@.subrange(0, i as int)).map_values(
                |x: Seq<char>| join_path(root@, x),
            ),
        decreases dirs@.len() - i,
    {
        let ghost before = r@;
        let v = join(root, dirs[i].as_str());
        r.push(v);
        i = i + 1;
        assert(dirs@.subrange(0, i as int) =~= dirs@.subrange(0, i - 1).push(dirs@[i - 1]));
        assert(views(dirs@.subrange(0, i as int)) =~= views(dirs@.subrange(0, i - 1)).push(dirs@[i - 1]@));
        assert(views(r@) =~= views(before).push(v@));
        assert(views(r@) =~= views(dirs@.subrange(0, i as int)).map_values(
            |x: Seq<char>| join_path(root@, x),
        ));
    }
    assert(dirs@.subrange(0, i as int) =~= dirs@);
    r
}

fn contains_name(table: &Vec<(String, Syntax)>, name: &String) -> (r: bool)
    ensures
        r == table_names(table@).contains(name@),
{
    let ghost names = table@.map_values(|p: (String, Syntax)| p.0@);
    let mut i: usize = 0;
    while i < table.len()
        invariant
            i <= table@.len(),
            names == table@.map_values(|p: (String, Syntax)| p.0@),
            forall|j: int| 0 <= j < i ==> names[j] != name@,
        decreases table@.len() - i,
    {
        if table[i].0 == *name {
            assert(names[i as int] == name@);
            return true;
        }
        i = i + 1;
    }
    false
}

/// Once the first `k` entries hold a refusal, every longer prefix holds the same one.
proof fn lemma_table_failure_sticks(entries: Seq<RawSyntax>, k: nat, m: nat)
    requires
        k <= m,
        table_failure(entries, k) is Some,
    ensures
        table_failure(entries, m) == table_failure(entries, k),
    decreases m - k,
{
    if k < m {
        lemma_table_failure_sticks(entries, k, (m - 1) as nat);
    }
}

/// The syntax table of the given entries, or the first refusal among them.
#[verifier::loop_isolation(false)]
fn build_syntax_table(entries: Vec<RawSyntax>) -> (r: Result<Vec<(String, Syntax)>, ErrorKind>)
    ensures
        match r {
            Ok(t) => {
                &&& table_failure(entries@, entries@.len()) is None
                &&& table_names(t@) == names_before(entries@, entries@.len() as int)
                &&& table_names(t@).no_duplicates()
                &&& t@.len() == entries@.len() + 1
                &&& t@[0].1@ == canonical_syntax()
                &&& forall|j: int| 0 <= j < entries@.len() ==> #[trigger] t@[j + 1].1@ == merged(entries@[j])
                &&& forall|j: int| 0 <= j < t@.len() ==> valid_syntax(#[trigger] t@[j].1@)
            },
            Err(e) => table_failure(entries@, entries@.len()) == Some(e@),
        },
{
    let ghost all = entries@;
    let mut entries = entries;
    let mut syntaxes: Vec<(String, Syntax)> = Vec::new();
    syntaxes.push(("default".to_owned(), Syntax::default_syntax()));
    let n = entries.len();
    let mut i: usize = 0;
    proof {
        assert(all.subrange(0, 0).map_values(|e: RawSyntax| e.name@) =~= Seq::<Seq<char>>::empty());
        assert(table_names(syntaxes@) =~= names_before(all, 0));
        assert(entries@ =~= all.subrange(0, 0 as int).add(entries@));
        lemma_canonical_valid();
    }
    while i < n
        invariant
            n == all.len(),
            i <= n,
            entries@ == all.subrange(i as int, n as int),
            table_failure(all, i as nat) is None,
            syntaxes@.len() == i + 1,
            table_names(syntaxes@) == names_before(all, i as int),
            table_names(syntaxes@).no_duplicates(),
            syntaxes@[0].1@ == canonical_syntax(),
            forall|j: int| 0 <= j < i ==> #[trigger] syntaxes@[j + 1].1@ == merged(all[j]),
            forall|j: int| 0 <= j < syntaxes@.len() ==> valid_syntax(#[trigger] syntaxes@[j].1@),
        decreases n - i,
    {
        assert(entries@[0] == all[i as int]);
        let raw_s = entries.remove(0);
        let name = raw_s.name.clone();
        let s = match Syntax::try_from(raw_s) {
            Ok(s) => s,
            Err(e) => {
                proof {
                    assert(entry_failure(all, i as int) == Some(e@));
                    assert(table_failure(all, (i + 1) as nat) == entry_failure(all, i as int));
                    lemma_table_failure_sticks(all, (i + 1) as nat, n as nat);
                    assert(table_failure(all, all.len()) == Some(e@));
                }
                return Err(e);
            },
        };
        if contains_name(&syntaxes, &name) {
            proof {
                assert(entry_failure(all, i as int) == Some(ErrorModel::DuplicateSyntaxName(name@)));
                assert(table_failure(all, (i + 1) as nat) == entry_failure(all, i as int));
                lemma_table_failure_sticks(all, (i + 1) as nat, n as nat);
            }
            return Err(ErrorKind::DuplicateSyntaxName(name));
        }
        let ghost old_names = table_names(syntaxes@);
        syntaxes.push((name, s));
        i = i + 1;
        proof {
            assert(all.subrange(0, i as int) =~= all.subrange(0, i - 1).push(all[i - 1]));
            assert(names_before(all, i as int) =~= names_before(all, i - 1).push(all[i - 1].name@));
            assert(table_names(syntaxes@) =~= old_names.push(name@));
            assert(entries@ =~= all.subrange(i as int, n as int));
            assert forall|a: int, b: int|
                0 <= a < b < old_names.push(name@).len() implies old_names.push(name@)[a]
                    != old_names.push(name@)[b] by {
                if b == old_names.len() {
                    assert(old_names[a] == old_names.push(name@)[a]);
                }
            }
        }
    }
    Ok(syntaxes)
}

/// The configured escaper rules in order, followed by the built-in ones.
#[verifier::loop_isolation(false)]
fn build_escapers(configured: Vec<RawEscaper>) -> (r: Vec<(Vec<String>, String)>)
    ensures
        r@.map_values(|p: (Vec<String>, String)| (views(p.0@), p.1@)) == configured@.map_values(
            |e: RawEscaper| (views(e.extensions@), e.path@),
        ) + builtin_escapers(),
{
    let mut configured = configured;
    let mut escapers: Vec<(Vec<String>, String)> = Vec::new();
    let ghost user = configured@;
    let m = configured.len();
    let mut k: usize = 0;
    assert(configured@ =~= user.subrange(0, m as int));
    while k < m
        invariant
            m == user.len(),
            k <= m,
            configured@ == user.subrange(k as int, m as int),
            escapers@.map_values(|p: (Vec<String>, String)| (views(p.0@), p.1@))
                == user.subrange(0, k as int).map_values(
                |e: RawEscaper| (views(e.extensions@), e.path@),
            ),
        decreases m - k,
    {
        assert(configured@[0] == user[k as int]);
        let e = configured.remove(0);
        let ghost before = escapers@;
        let RawEscaper { path, extensions } = e;
        escapers.push((extensions, path));
        k = k + 1;
        assert(configured@ =~= user.subrange(k as int, m as int));
        assert(user.subrange(0, k as int) =~= user.subrange(0, k - 1).push(user[k - 1]));
        assert(escapers@ =~= before.push((extensions, path)));
        assert(escapers@.map_values(|p: (Vec<String>, String)| (views(p.0@), p.1@))
            =~= before.map_values(|p: (Vec<String>, String)| (views(p.0@), p.1@)).push(
            (views(extensions@), path@),
        ));
        assert(user.subrange(0, k as int).map_values(
            |e: RawEscaper| (views(e.extensions@), e.path@),
        ) =~= user.subrange(0, k - 1).map_values(
            |e: RawEscaper| (views(e.extensions@), e.path@),
        ).push((views(extensions@), path@)));
    }
    let ghost before = escapers@;
    let mut builtin = builtin_escaper_rules();
    let ghost tail = builtin@;
    escapers.append(&mut builtin);
    assert(user.subrange(0, m as int) =~= user);
    assert(escapers@ == before + tail);
    assert(escapers@.map_values(|p: (Vec<String>, String)| (views(p.0@), p.1@)) =~= before.map_values(
        |p: (Vec<String>, String)| (views(p.0@), p.1@),
    ) + tail.map_values(|p: (Vec<String>, String)| (views(p.0@), p.1@)));
    escapers
}

/// The search path, default syntax name and whitespace choice of the `general` section.
fn resolve_general(general: Option<General>, root: &str) -> (r: (Vec<String>, String, WhitespaceHandling))
    ensures
        views(r.0@) == resolved_dirs(RawConfig { general, syntax: None, escaper: None }, root@),
        r.1@ == resolved_default(RawConfig { general, syntax: None, escaper: None }),
        r.2 == resolved_whitespace(RawConfig { general, syntax: None, escaper: None }, None),
{
    match general {
        Some(gen) => {
            let General { dirs, default_syntax, whitespace } = gen;
            let dirs = match dirs {
                Some(v) => join_all(root, &v),
                None => {
                    let d = vec![join(root, "templates")];
                    assert(views(d@) =~= seq![join_path(root@, "templates"@)]);
                    d
                },
            };
            let name = match default_syntax {
                Some(n) => n,
                None => "default".to_owned(),
            };
            (dirs, name, whitespace)
        },
        None => {
            let d = vec![join(root, "templates")];
            assert(views(d@) =~= seq![join_path(root@, "templates"@)]);
            (d, "default".to_owned(), WhitespaceHandling::Preserve)
        },
    }
}

impl Config {
    /// Resolves a decoded configuration document over the built-in defaults.
    /// Directories are joined onto `root`; `site` is a whitespace choice made
    /// where the template is declared, which takes precedence over the document.
    pub fn new(raw: RawConfig, root: &str, site: Option<WhitespaceHandling>) -> (r: Result<
        Config,
        ErrorKind,
    >)
        ensures
            match r {
                Ok(c) => resolve_failure(raw) is None && c.wf() && c.resolves_from(raw, root@, site),
                Err(e) => resolve_failure(raw) == Some(e@),
            },
    {
        let ghost g = raw;
        let RawConfig { general, syntax, escaper } = raw;
        let (dirs, default_syntax, doc_whitespace) = resolve_general(general, root);
        let whitespace = match site {
            Some(w) => w,
            None => doc_whitespace,
        };
        let entries = match syntax {
            Some(v) => v,
            None => Vec::new(),
        };
        assert(entries@ == raw_syntaxes(g));
        let syntaxes = match build_syntax_table(entries) {
            Ok(t) => t,
            Err(e) => return Err(e),
        };
        if !contains_name(&syntaxes, &default_syntax) {
            return Err(ErrorKind::UnknownDefaultSyntax(default_syntax));
        }
        let configured = match escaper {
            Some(v) => v,
            None => Vec::new(),
        };
        assert(configured@ == raw_escapers(g));
        let escapers = build_escapers(configured);
        let c = Config { dirs, syntaxes, default_syntax, escapers, whitespace };
        assert(c.syntaxes@[0].0@ == c.syntax_names()[0]);
        Ok(c)
    }
}

proof fn lemma_canonical_valid()
    ensures
        valid_syntax(canonical_syntax()),
{
    crate::syntax::lemma_canonical_bytes();
}

impl Default for WhitespaceHandling {
    fn default() -> (r: WhitespaceHandling)
        ensures
            r == WhitespaceHandling::Preserve,
    {
        WhitespaceHandling::Preserve
    }
}

/// `a` is the letter `b`, in either case; `b` is written in lower case.
pub open spec fn same_letter(a: char, b: char) -> bool {
    a == b || ('a' <= b && b <= 'z' && a as u32 + 32 == b as u32)
}

/// `s` spells `name` (written in lower case) in any mix of cases.
pub open spec fn spells(s: Seq<char>, name: Seq<char>) -> bool {
    s.len() == name.len() && forall|i: int| 0 <= i < s.len() ==> same_letter(#[trigger] s[i], name[i])
}

fn spells_exec(s: &str, name: &str) -> (r: bool)
    ensures
        r == spells(s@, name@),
{
    let n = s.unicode_len();
    if n != name.unicode_len() {
        return false;
    }
    let mut i: usize = 0;
    while i < n
        invariant
            n == s@.len(),
            n == name@.len(),
            i <= n,
            forall|j: int| 0 <= j < i ==> same_letter(#[trigger] s@[j], name@[j]),
        decreases n - i,
    {
        let a = s.get_char(i);
        let b = name.get_char(i);
        let same = a == b || ('a' <= b && b <= 'z' && (a as u32) + 32 == (b as u32));
        if !same {
            return false;
        }
        i = i + 1;
    }
    true
}

impl WhitespaceHandling {
    /// Reads a policy name, `preserve`, `suppress` or `minimize`, in any case.
    pub fn from_name(s: &str) -> (r: Option<WhitespaceHandling>)
        ensures
            r == (if spells(s@, "preserve"@) {
                Some(WhitespaceHandling::Preserve)
            } else if spells(s@, "suppress"@) {
                Some(WhitespaceHandling::Suppress)
            } else if spells(s@, "minimize"@) {
                Some(WhitespaceHandling::Minimize)
            } else {
                None
            }),
    {
        if spells_exec(s, "preserve") {
            Some(WhitespaceHandling::Preserve)
        } else if spells_exec(s, "suppress") {
            Some(WhitespaceHandling::Suppress)
        } else if spells_exec(s, "minimize") {
            Some(WhitespaceHandling::Minimize)
        } else {
            None
        }
    }
}

/// The index of the first rule whose extension set holds `ext`.
pub open spec fn first_rule_for(rules: Seq<(Seq<Seq<char>>, Seq<char>)>, ext: Seq<char>) -> Option<int>
    decreases rules.len(),
{
    if rules.len() == 0 {
        None
    } else if rules.last().0.contains(ext) {
        match first_rule_for(rules.drop_last(), ext) {
            Some(i) => Some(i),
            None => Some(rules.len() - 1),
        }
    } else {
        first_rule_for(rules.drop_last(), ext)
    }
}

fn contains_ext(exts: &Vec<String>, ext: &str) -> (r: bool)
    ensures
        r == views(exts@).contains(ext@),
{
    let target = ext.to_owned();
    let mut i: usize = 0;
    while i < exts.len()
        invariant
            i <= exts@.len(),
            target@ == ext@,
            forall|j: int| 0 <= j < i ==> views(exts@)[j] != ext@,
        decreases exts@.len() - i,
    {
        if exts[i] == target {
            assert(views(exts@)[i as int] == ext@);
            return true;
        }
        i = i + 1;
    }
    false
}

impl Config {
    /// The escaper for files with extension `ext`: that of the first rule
    /// whose extension set holds it.
    pub fn escaper_for(&self, ext: &str) -> (r: Option<&String>)
        ensures
            match first_rule_for(self.escaper_rules(), ext@) {
                Some(i) => r matches Some(p) && p@ == self.escaper_rules()[i].1,
                None => r is None,
            },
    {
        let ghost rules = self.escaper_rules();
        let mut i: usize = 0;
        while i < self.escapers.len()
            invariant
                i <= self.escapers@.len(),
                rules == self.escaper_rules(),
                first_rule_for(rules.subrange(0, i as int), ext@) is None,
            decreases self.escapers@.len() - i,
        {
            let found = contains_ext(&self.escapers[i].0, ext);
            proof {
                let pre = rules.subrange(0, i + 1);
                assert(pre.drop_last() =~= rules.subrange(0, i as int));
                assert(pre.last() == rules[i as int]);
            }
            if found {
                proof {
                    lemma_first_rule_extends(rules, (i + 1) as int, ext@);
                }
                return Some(&self.escapers[i].1);
            }
            i = i + 1;
        }
        assert(rules.subrange(0, i as int) =~= rules);
        None
    }

    /// The delimiter set registered under `name`.
    pub fn get_syntax(&self, name: &str) -> (r: Option<&Syntax>)
        requires
            self.wf(),
        ensures
            match r {
                Some(s) => exists|i: int|
                    0 <= i < self.syntaxes@.len() && self.syntax_names()[i] == name@ && *s
                        == #[trigger] self.syntaxes@[i].1,
                None => !self.syntax_names().contains(name@),
            },
    {
        let target = name.to_owned();
        let mut i: usize = 0;
        while i < self.syntaxes.len()
            invariant
                i <= self.syntaxes@.len(),
                target@ == name@,
                forall|j: int| 0 <= j < i ==> self.syntax_names()[j] != name@,
            decreases self.syntaxes@.len() - i,
        {
            if self.syntaxes[i].0 == target {
                assert(self.syntax_names()[i as int] == name@);
                return Some(&self.syntaxes[i].1);
            }
            i = i + 1;
        }
        None
    }
}

/// A first match among the first `k` rules stays the first match among more.
proof fn lemma_first_rule_extends(rules: Seq<(Seq<Seq<char>>, Seq<char>)>, k: int, ext: Seq<char>)
    requires
        0 < k <= rules.len(),
        first_rule_for(rules.subrange(0, k - 1), ext) is None,
        rules[k - 1].0.contains(ext),
    ensures
        first_rule_for(rules, ext) == Some(k - 1),
    decreases rules.len() - k,
{
    let pre = rules.subrange(0, k);
    assert(pre.drop_last() =~= rules.subrange(0, k - 1));
    if k < rules.len() {
        lemma_first_rule_stays(rules, k, ext);
    } else {
        assert(pre =~= rules);
    }
}

proof fn lemma_first_rule_stays(rules: Seq<(Seq<Seq<char>>, Seq<char>)>, k: int, ext: Seq<char>)
    requires
        0 < k <= rules.len(),
        first_rule_for(rules.subrange(0, k), ext) is Some,
    ensures
        first_rule_for(rules, ext) == first_rule_for(rules.subrange(0, k), ext),
    decreases rules.len() - k,
{
    if k < rules.len() {
        let pre = rules.subrange(0, k + 1);
        assert(pre.drop_last() =~= rules.subrange(0, k));
        lemma_first_rule_stays(rules, k + 1, ext);
    } else {
        assert(rules.subrange(0, k) =~= rules);
    }
}

} // verus!
