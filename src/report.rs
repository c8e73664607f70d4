use vstd::prelude::*;

use crate::error::{views, ErrorKind, ErrorModel};

verus! {

/// Where a failure happened: a file, and optionally that file's text and
/// the piece of it at fault.
#[derive(Clone, Debug, PartialEq, Eq)]
pub struct FileInfo {
    pub path: String,
    pub source: Option<String>,
    pub node_source: Option<String>,
}

/// A failure together with the place it refers to, if one is known.
#[derive(Clone, Debug, PartialEq, Eq)]
pub struct CompileError {
    pub kind: ErrorKind,
    pub location: Option<FileInfo>,
}

pub open spec fn opt_chars(o: Option<String>) -> Option<Seq<char>> {
    match o {
        Some(s) => Some(s@),
        None => None,
    }
}

pub open spec fn opt_str_chars(o: Option<&str>) -> Option<Seq<char>> {
    match o {
        Some(s) => Some(s@),
        None => None,
    }
}

fn opt_owned(o: Option<&str>) -> (r: Option<String>)
    ensures
        opt_chars(r) == opt_str_chars(o),
{
    match o {
        Some(s) => Some(s.to_owned()),
        None => None,
    }
}

/// The decimal digits of `n`.
pub open spec fn decimal(n: nat) -> Seq<char>
    decreases n,
{
    if n < 10 {
        digit(n)
    } else {
        decimal(n / 10) + digit(n % 10)
    }
}

pub open spec fn digit(d: nat) -> Seq<char> {
    if d == 0 {
        "0"@
    } else if d == 1 {
        "1"@
    } else if d == 2 {
        "2"@
    } else if d == 3 {
        "3"@
    } else if d == 4 {
        "4"@
    } else if d == 5 {
        "5"@
    } else if d == 6 {
        "6"@
    } else if d == 7 {
        "7"@
    } else if d == 8 {
        "8"@
    } else {
        "9"@
    }
}

fn digit_str(d: usize) -> (r: &'static str)
    requires
        d < 10,
    ensures
        r@ == digit(d as nat),
{
    if d == 0 {
        "0"
    } else if d == 1 {
        "1"
    } else if d == 2 {
        "2"
    } else if d == 3 {
        "3"
    } else if d == 4 {
        "4"
    } else if d == 5 {
        "5"
    } else if d == 6 {
        "6"
    } else if d == 7 {
        "7"
    } else if d == 8 {
        "8"
    } else {
        "9"
    }
}

/// Writes `n` in decimal.
pub fn decimal_string(n: usize) -> (r: String)
    ensures
        r@ == decimal(n as nat),
    decreases n,
{
    if n < 10 {
        digit_str(n).to_owned()
    } else {
        decimal_string(n / 10).concat(digit_str(n % 10))
    }
}

/// `t` occurs in `s` at position `i`.
pub open spec fn occurs_at(s: Seq<char>, t: Seq<char>, i: int) -> bool {
    0 <= i && i + t.len() <= s.len() && s.subrange(i, i + t.len()) == t
}

/// The position of the first occurrence of `t` in `s`, if any.
pub open spec fn first_occurrence(s: Seq<char>, t: Seq<char>) -> Option<int> {
    if exists|i: int| occurs_at(s, t, i) {
        Some(choose|i: int| occurs_at(s, t, i) && forall|j: int| 0 <= j < i ==> !occurs_at(s, t, j))
    } else {
        None
    }
}

/// The number of line breaks in `s`.
pub open spec fn count_newlines(s: Seq<char>) -> nat
    decreases s.len(),
{
    if s.len() == 0 {
        0
    } else {
        count_newlines(s.drop_last()) + if s.last() == '\n' { 1nat } else { 0nat }
    }
}

/// The number of characters after the last line break of `s`.
pub open spec fn last_line_len(s: Seq<char>) -> nat
    decreases s.len(),
{
    if s.len() == 0 || s.last() == '\n' {
        0
    } else {
        last_line_len(s.drop_last()) + 1
    }
}

/// How many characters of `s` from position `i` on come before the next line break.
pub open spec fn line_rest(s: Seq<char>, i: int) -> nat
    decreases s.len() - i,
{
    if i < 0 || i >= s.len() || s[i] == '\n' {
        0
    } else {
        line_rest(s, i + 1) + 1
    }
}

/// The path as shown: relative to `cwd` where it lies below it.
pub open spec fn shown_path(path: Seq<char>, cwd: Option<Seq<char>>) -> Seq<char> {
    match cwd {
        Some(c) => {
            let prefix = c + "/"@;
            if c.len() > 0 && prefix.len() < path.len() && path.subrange(0, prefix.len() as int)
                == prefix {
                path.subrange(prefix.len() as int, path.len() as int)
            } else {
                path
            }
        },
        None => path,
    }
}

/// The location suffix of a message: `path:row:column` (both counted from one)
/// and the rest of the offending line where the piece is found in the text,
/// else the path alone.
pub open spec fn location_text(
    path: Seq<char>,
    source: Option<Seq<char>>,
    node: Option<Seq<char>>,
    cwd: Option<Seq<char>>,
) -> Seq<char> {
    let p = shown_path(path, cwd);
    match (source, node) {
        (Some(s), Some(n)) => match first_occurrence(s, n) {
            Some(i) => {
                let before = s.subrange(0, i);
                "\n  --> "@ + p + ":"@ + decimal(count_newlines(before) + 1) + ":"@ + decimal(
                    last_line_len(before) + 1,
                ) + "\n"@ + s.subrange(i, i + line_rest(s, i))
            },
            None => "\n --> "@ + p,
        },
        _ => "\n --> "@ + p,
    }
}

/// The words of a failure.
pub open spec fn message_text(e: ErrorModel) -> Seq<char> {
    match e {
        ErrorModel::ConfigDocumentMalformed(m) => "invalid configuration document: "@ + m,
        ErrorModel::DuplicateSyntaxName(n) => "syntax \""@ + n + "\" is already defined"@,
        ErrorModel::UnknownDefaultSyntax(n) => "default syntax \""@ + n + "\" not found"@,
        ErrorModel::InvalidDelimiterLength => "length of delimiters must be two"@,
        ErrorModel::AmbiguousDelimiterSet(b, c, x) => "bad delimiters block_start: "@ + b
            + ", comment_start: "@ + c + ", expr_start: "@ + x
            + ", needs one of the two characters in common"@,
        ErrorModel::ConfigFileMissingExplicit(r) => "`"@ + r + "` does not exist"@,
        ErrorModel::TemplateNotFound(n, d) => "template \""@ + n + "\" not found in directories ["@
            + quoted_list(d) + "]"@,
        ErrorModel::SourceReadFailure(p) => "unable to open template file '"@ + p + "'"@,
        ErrorModel::UnresolvedInheritedBlock(b) => "cannot find block "@ + b,
        ErrorModel::DependencyDiscoveryFailure(m) => m,
        ErrorModel::GenerationFailure(m) => m,
    }
}

/// Each item in double quotes, separated by `, `.
pub open spec fn quoted_list(d: Seq<Seq<char>>) -> Seq<char>
    decreases d.len(),
{
    if d.len() == 0 {
        seq![]
    } else if d.len() == 1 {
        "\""@ + d[0] + "\""@
    } else {
        quoted_list(d.drop_last()) + ", "@ + "\""@ + d.last() + "\""@
    }
}

fn quoted_list_string(d: &Vec<String>) -> (r: String)
    ensures
        r@ == quoted_list(views(d@)),
{
    let mut r = String::new();
    let mut i: usize = 0;
    while i < d.len()
        invariant
            i <= d@.len(),
            r@ == quoted_list(views(d@.subrange(0, i as int))),
        decreases d@.len() - i,
    {
        let ghost prev = views(d@.subrange(0, i as int));
        if i > 0 {
            r.append(", ");
        }
        r.append("\"");
        r.append(d[i].as_str());
        r.append("\"");
        i = i + 1;
        proof {
            let cur = views(d@.subrange(0, i as int));
            assert(cur.drop_last() =~= prev);
            assert(cur.last() == d@[i - 1]@);
            if i == 1 {
                assert(prev =~= Seq::<Seq<char>>::empty());
                assert(r@ =~= quoted_list(cur));
            } else {
                assert(r@ =~= quoted_list(cur));
            }
        }
    }
    assert(d@.subrange(0, i as int) =~= d@);
    r
}

impl ErrorKind {
    /// The words of this failure.
    pub fn message(&self) -> (r: String)
        ensures
            r@ == message_text(self@),
    {
        match self {
            ErrorKind::ConfigDocumentMalformed(m) => "invalid configuration document: ".to_owned().concat(m.as_str()),
            ErrorKind::DuplicateSyntaxName(n) => "syntax \"".to_owned().concat(n.as_str()).concat("\" is already defined"),
            ErrorKind::UnknownDefaultSyntax(n) => "default syntax \"".to_owned().concat(n.as_str()).concat("\" not found"),
            ErrorKind::InvalidDelimiterLength => "length of delimiters must be two".to_owned(),
            ErrorKind::AmbiguousDelimiterSet { block_start, comment_start, expr_start } =>
                "bad delimiters block_start: ".to_owned().concat(block_start.as_str()).concat(
                    ", comment_start: ",
                ).concat(comment_start.as_str()).concat(", expr_start: ").concat(
                    expr_start.as_str(),
                ).concat(", needs one of the two characters in common"),
            ErrorKind::ConfigFileMissingExplicit(r) => "`".to_owned().concat(r.as_str()).concat("` does not exist"),
            ErrorKind::TemplateNotFound { name, dirs } => {
                let list = quoted_list_string(dirs);
                "template \"".to_owned().concat(name.as_str()).concat(
                    "\" not found in directories [",
                ).concat(list.as_str()).concat("]")
            },
            ErrorKind::SourceReadFailure(p) => "unable to open template file '".to_owned().concat(p.as_str()).concat("'"),
            ErrorKind::UnresolvedInheritedBlock(b) => "cannot find block ".to_owned().concat(b.as_str()),
            ErrorKind::DependencyDiscoveryFailure(m) => m.clone(),
            ErrorKind::GenerationFailure(m) => m.clone(),
        }
    }
}

fn chars_of(s: &str) -> (r: Vec<char>)
    ensures
        r@ == s@,
{
    let n = s.unicode_len();
    let mut r: Vec<char> = Vec::new();
    let mut i: usize = 0;
    while i < n
        invariant
            n == s@.len(),
            i <= n,
            r@ == s@.subrange(0, i as int),
        decreases n - i,
    {
        r.push(s.get_char(i));
        i = i + 1;
        assert(r@ =~= s@.subrange(0, i as int));
    }
    assert(r@ =~= s@);
    r
}

fn occurs(s: &Vec<char>, t: &Vec<char>, i: usize) -> (r: bool)
    requires
        i + t@.len() <= s@.len(),
    ensures
        r == occurs_at(s@, t@, i as int),
{
    let n = s.len();
    let mut k: usize = 0;
    while k < t.len()
        invariant
            n == s@.len(),
            i + t@.len() <= s@.len(),
            k <= t@.len(),
            forall|j: int| 0 <= j < k ==> s@[i + j] == t@[j],
        decreases t@.len() - k,
    {
        if s[i + k] != t[k] {
            assert(s@.subrange(i as int, i + t@.len())[k as int] != t@[k as int]);
            return false;
        }
        k = k + 1;
    }
    assert(s@.subrange(i as int, i + t@.len()) =~= t@);
    true
}

fn find_first(s: &Vec<char>, t: &Vec<char>) -> (r: Option<usize>)
    ensures
        match r {
            Some(i) => first_occurrence(s@, t@) == Some(i as int) && i + t@.len() <= s@.len() && (
            t@.len() == 0 ==> i == 0),
            None => first_occurrence(s@, t@) is None,
        },
{
    if t.len() > s.len() {
        return None;
    }
    let last = s.len() - t.len();
    let mut i: usize = 0;
    while i <= last
        invariant
            last + t@.len() == s@.len(),
            forall|j: int| 0 <= j < i ==> !occurs_at(s@, t@, j),
        decreases last + 1 - i,
    {
        if occurs(s, t, i) {
            proof {
                if t@.len() == 0 {
                    assert(s@.subrange(0, 0) =~= t@);
                    assert(occurs_at(s@, t@, 0));
                }
            }
            let ghost c = choose|c: int| occurs_at(s@, t@, c) && forall|j: int| 0 <= j < c ==> !occurs_at(s@, t@, j);
            proof {
                assert(occurs_at(s@, t@, i as int) && forall|j: int| 0 <= j < i ==> !occurs_at(s@, t@, j));
                if c < i {
                } else if c > i {
                }
            }
            return Some(i);
        }
        if i == last {
            assert forall|j: int| occurs_at(s@, t@, j) implies false by {
                assert(j <= last);
            }
            return None;
        }
        i = i + 1;
    }
    None
}

/// The line and column counts of the text before position `i`.
fn position_of(s: &Vec<char>, i: usize) -> (r: (usize, usize))
    requires
        i <= s@.len(),
    ensures
        r.0 == count_newlines(s@.subrange(0, i as int)),
        r.1 == last_line_len(s@.subrange(0, i as int)),
        r.0 <= i,
        r.1 <= i,
{
    let mut rows: usize = 0;
    let mut col: usize = 0;
    let mut k: usize = 0;
    assert(s@.subrange(0, 0) =~= Seq::<char>::empty());
    while k < i
        invariant
            i <= s@.len(),
            k <= i,
            rows <= k,
            col <= k,
            rows == count_newlines(s@.subrange(0, k as int)),
            col == last_line_len(s@.subrange(0, k as int)),
        decreases i - k,
    {
        assert(s@.subrange(0, k + 1).drop_last() =~= s@.subrange(0, k as int));
        if s[k] == '\n' {
            rows = rows + 1;
            col = 0;
        } else {
            col = col + 1;
        }
        k = k + 1;
    }
    (rows, col)
}

/// The position of the first line break at or after `i`, or the end.
fn line_end(s: &Vec<char>, i: usize) -> (r: usize)
    requires
        i <= s@.len(),
    ensures
        r == i + line_rest(s@, i as int),
        r <= s@.len(),
{
    let n = s.len();
    let mut j: usize = i;
    while j < n && s[j] != '\n'
        invariant
            n == s@.len(),
            i <= j <= n,
            line_rest(s@, i as int) == (j - i) + line_rest(s@, j as int),
        decreases n - j,
    {
        j = j + 1;
    }
    j
}

#[verifier::loop_isolation(false)]
fn shown_path_string(path: &str, cwd: Option<&str>) -> (r: String)
    ensures
        r@ == shown_path(path@, opt_str_chars(cwd)),
{
    match cwd {
        None => path.to_owned(),
        Some(c) => {
            let prefix = c.to_owned().concat("/");
            let p = chars_of(path);
            let q = chars_of(prefix.as_str());
            if c.unicode_len() > 0 && q.len() < p.len() {
                let mut k: usize = 0;
                while k < q.len()
                    invariant
                        p@ == path@,
                        q@ == c@ + "/"@,
                        q@.len() < p@.len(),
                        k <= q@.len(),
                        forall|j: int| 0 <= j < k ==> p@[j] == q@[j],
                    decreases q@.len() - k,
                {
                    if p[k] != q[k] {
                        assert(p@.subrange(0, q@.len() as int)[k as int] != q@[k as int]);
                        assert(path@.subrange(0, (c@ + "/"@).len() as int) != c@ + "/"@);
                        return path.to_owned();
                    }
                    k = k + 1;
                }
                assert(p@.subrange(0, q@.len() as int) =~= q@);
                path.substring_char(q.len(), p.len()).to_owned()
            } else {
                path.to_owned()
            }
        },
    }
}

impl FileInfo {
    /// A location in the file at `path`, with its text and the offending piece where known.
    pub fn new(path: &str, source: Option<&str>, node_source: Option<&str>) -> (r: FileInfo)
        ensures
            r.path@ == path@,
            opt_chars(r.source) == opt_str_chars(source),
            opt_chars(r.node_source) == opt_str_chars(node_source),
    {
        FileInfo { path: path.to_owned(), source: opt_owned(source), node_source: opt_owned(node_source) }
    }

    /// Renders the location, showing the path relative to `cwd` where it lies below it.
    pub fn render(&self, cwd: Option<&str>) -> (r: String)
        ensures
            r@ == location_text(
                self.path@,
                opt_chars(self.source),
                opt_chars(self.node_source),
                opt_str_chars(cwd),
            ),
    {
        let p = shown_path_string(self.path.as_str(), cwd);
        match (&self.source, &self.node_source) {
            (Some(source), Some(node)) => {
                let s = chars_of(source.as_str());
                let t = chars_of(node.as_str());
                match find_first(&s, &t) {
                    Some(i) => {
                        let n = s.len();
                        let (rows, col) = position_of(&s, i);
                        let end = line_end(&s, i);
                        let row_text = decimal_string(rows + 1);
                        let col_text = decimal_string(col + 1);
                        let excerpt = source.as_str().substring_char(i, end);
                        "\n  --> ".to_owned().concat(p.as_str()).concat(":").concat(
                            row_text.as_str(),
                        ).concat(":").concat(col_text.as_str()).concat("\n").concat(excerpt)
                    },
                    None => "\n --> ".to_owned().concat(p.as_str()),
                }
            },
            _ => "\n --> ".to_owned().concat(p.as_str()),
        }
    }
}

impl CompileError {
    /// A failure of the given kind at the given place, if any.
    pub fn new(kind: ErrorKind, location: Option<FileInfo>) -> (r: CompileError)
        ensures
            r.kind == kind,
            r.location == location,
    {
        CompileError { kind, location }
    }

    /// The failure's words followed by its location, as a reader sees them.
    pub fn render(&self, cwd: Option<&str>) -> (r: String)
        ensures
            r@ == message_text(self.kind@) + match self.location {
                Some(l) => location_text(
                    l.path@,
                    opt_chars(l.source),
                    opt_chars(l.node_source),
                    opt_str_chars(cwd),
                ),
                None => Seq::<char>::empty(),
            },
    {
        let m = self.kind.message();
        match &self.location {
            Some(l) => {
                let loc = l.render(cwd);
                m.concat(loc.as_str())
            },
            None => {
                assert(m@ + Seq::<char>::empty() =~= m@);
                m
            },
        }
    }
}

} // verus!
