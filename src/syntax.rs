use vstd::prelude::*;
use vstd::utf8::{encode_scalar, encode_utf8};

use crate::error::{ErrorKind, ErrorModel};

verus! {

/// A syntax entry as the configuration document states it: a name and any
/// of the six delimiters it overrides.
#[derive(Clone, Debug, PartialEq, Eq)]
pub struct RawSyntax {
    pub name: String,
    pub block_start: Option<String>,
    pub block_end: Option<String>,
    pub expr_start: Option<String>,
    pub expr_end: Option<String>,
    pub comment_start: Option<String>,
    pub comment_end: Option<String>,
}

/// The six delimiters of a template syntax.
#[derive(Clone, Debug, PartialEq, Eq)]
pub struct Syntax {
    pub block_start: String,
    pub block_end: String,
    pub expr_start: String,
    pub expr_end: String,
    pub comment_start: String,
    pub comment_end: String,
}

/// The six delimiters as character sequences, in declaration order.
pub struct SyntaxModel {
    pub block_start: Seq<char>,
    pub block_end: Seq<char>,
    pub expr_start: Seq<char>,
    pub expr_end: Seq<char>,
    pub comment_start: Seq<char>,
    pub comment_end: Seq<char>,
}

impl View for Syntax {
    type V = SyntaxModel;

    open spec fn view(&self) -> SyntaxModel {
        SyntaxModel {
            block_start: self.block_start@,
            block_end: self.block_end@,
            expr_start: self.expr_start@,
            expr_end: self.expr_end@,
            comment_start: self.comment_start@,
            comment_end: self.comment_end@,
        }
    }
}

/// The built-in delimiter set.
pub open spec fn canonical_syntax() -> SyntaxModel {
    SyntaxModel {
        block_start: seq!['{', '%'],
        block_end: seq!['%', '}'],
        expr_start: seq!['{', '{'],
        expr_end: seq!['}', '}'],
        comment_start: seq!['{', '#'],
        comment_end: seq!['#', '}'],
    }
}

/// The given override, or the built-in delimiter where there is none.
pub open spec fn or_default(o: Option<String>, d: Seq<char>) -> Seq<char> {
    match o {
        Some(s) => s@,
        None => d,
    }
}

/// A raw entry with every absent delimiter taken from the built-in set.
pub open spec fn merged(raw: RawSyntax) -> SyntaxModel {
    let d = canonical_syntax();
    SyntaxModel {
        block_start: or_default(raw.block_start, d.block_start),
        block_end: or_default(raw.block_end, d.block_end),
        expr_start: or_default(raw.expr_start, d.expr_start),
        expr_end: or_default(raw.expr_end, d.expr_end),
        comment_start: or_default(raw.comment_start, d.comment_start),
        comment_end: or_default(raw.comment_end, d.comment_end),
    }
}

/// The delimiter is exactly two bytes long.
pub open spec fn two_bytes(s: Seq<char>) -> bool {
    encode_utf8(s).len() == 2
}

pub open spec fn lengths_ok(m: SyntaxModel) -> bool {
    two_bytes(m.block_start) && two_bytes(m.block_end) && two_bytes(m.expr_start)
        && two_bytes(m.expr_end) && two_bytes(m.comment_start) && two_bytes(m.comment_end)
}

/// The three opening delimiters agree on their first byte, or on their second.
pub open spec fn disambiguated(m: SyntaxModel) -> bool {
    let b = encode_utf8(m.block_start);
    let c = encode_utf8(m.comment_start);
    let e = encode_utf8(m.expr_start);
    (b[0] == c[0] && b[0] == e[0]) || (b[1] == c[1] && b[1] == e[1])
}

/// A delimiter set that a template lexer can use.
pub open spec fn valid_syntax(m: SyntaxModel) -> bool {
    lengths_ok(m) && disambiguated(m)
}

/// Why a raw entry is refused, if it is.
pub open spec fn syntax_failure(raw: RawSyntax) -> Option<ErrorModel> {
    let m = merged(raw);
    if !lengths_ok(m) {
        Some(ErrorModel::InvalidDelimiterLength)
    } else if !disambiguated(m) {
        Some(ErrorModel::AmbiguousDelimiterSet(m.block_start, m.comment_start, m.expr_start))
    } else {
        None
    }
}

/// The encoding of two ASCII characters is one byte for each.
proof fn lemma_ascii_pair(a: char, b: char)
    requires
        (a as u32) <= 0x7f,
        (b as u32) <= 0x7f,
    ensures
        encode_utf8(seq![a, b]).len() == 2,
        encode_utf8(seq![a, b])[0] == encode_scalar(a as u32)[0],
        encode_utf8(seq![a, b])[1] == encode_scalar(b as u32)[0],
{
    let s = seq![a, b];
    assert(s.drop_first() =~= seq![b]);
    assert(seq![b].drop_first() =~= Seq::<char>::empty());
    assert(encode_utf8(seq![b]) == encode_scalar(b as u32) + encode_utf8(Seq::<char>::empty()));
    assert(encode_utf8(s) == encode_scalar(a as u32) + encode_utf8(seq![b]));
}

/// The built-in delimiter set is valid.
pub proof fn lemma_canonical_bytes()
    ensures
        valid_syntax(canonical_syntax()),
{
    lemma_ascii_pair('{', '%');
    lemma_ascii_pair('%', '}');
    lemma_ascii_pair('{', '{');
    lemma_ascii_pair('}', '}');
    lemma_ascii_pair('{', '#');
    lemma_ascii_pair('#', '}');
}

proof fn lemma_canonical_literals()
    ensures
        "{%"@ == canonical_syntax().block_start,
        "%}"@ == canonical_syntax().block_end,
        "{{"@ == canonical_syntax().expr_start,
        "}}"@ == canonical_syntax().expr_end,
        "{#"@ == canonical_syntax().comment_start,
        "#}"@ == canonical_syntax().comment_end,
{
    reveal_strlit("{%");
    reveal_strlit("%}");
    reveal_strlit("{{");
    reveal_strlit("}}");
    reveal_strlit("{#");
    reveal_strlit("#}");
    assert("{%"@ =~= canonical_syntax().block_start);
    assert("%}"@ =~= canonical_syntax().block_end);
    assert("{{"@ =~= canonical_syntax().expr_start);
    assert("}}"@ =~= canonical_syntax().expr_end);
    assert("{#"@ =~= canonical_syntax().comment_start);
    assert("#}"@ =~= canonical_syntax().comment_end);
}

fn or_default_string(o: Option<String>, d: &str) -> (r: String)
    ensures
        r@ == (match o {
            Some(s) => s@,
            None => d@,
        }),
{
    match o {
        Some(s) => s,
        None => d.to_owned(),
    }
}

impl Syntax {
    /// The built-in delimiter set: `{%` `%}`, `{{` `}}`, `{#` `#}`.
    pub fn default_syntax() -> (r: Syntax)
        ensures
            r@ == canonical_syntax(),
    {
        proof {
            lemma_canonical_literals();
        }
        let r = Syntax {
            block_start: "{%".to_owned(),
            block_end: "%}".to_owned(),
            expr_start: "{{".to_owned(),
            expr_end: "}}".to_owned(),
            comment_start: "{#".to_owned(),
            comment_end: "#}".to_owned(),
        };
        assert(r@ =~= canonical_syntax());
        r
    }

    /// Completes a raw entry from the built-in set and validates it.
    pub fn try_from(raw: RawSyntax) -> (r: Result<Syntax, ErrorKind>)
        ensures
            match r {
                Ok(s) => syntax_failure(raw) is None && s@ == merged(raw),
                Err(e) => syntax_failure(raw) == Some(e@),
            },
    {
        let ghost g = raw;
        let syntax = Syntax {
            block_start: or_default_string(raw.block_start, "{%"),
            block_end: or_default_string(raw.block_end, "%}"),
            expr_start: or_default_string(raw.expr_start, "{{"),
            expr_end: or_default_string(raw.expr_end, "}}"),
            comment_start: or_default_string(raw.comment_start, "{#"),
            comment_end: or_default_string(raw.comment_end, "#}"),
        };
        proof {
            lemma_canonical_literals();
            assert(syntax@ =~= merged(g));
        }
        let bs = syntax.block_start.as_str().as_bytes();
        let be = syntax.block_end.as_str().as_bytes();
        let es = syntax.expr_start.as_str().as_bytes();
        let ee = syntax.expr_end.as_str().as_bytes();
        let cs = syntax.comment_start.as_str().as_bytes();
        let ce = syntax.comment_end.as_str().as_bytes();
        if bs.len() != 2 || be.len() != 2 || es.len() != 2 || ee.len() != 2 || cs.len() != 2
            || ce.len() != 2 {
            return Err(ErrorKind::InvalidDelimiterLength);
        }
        if !((bs[0] == cs[0] && bs[0] == es[0]) || (bs[1] == cs[1] && bs[1] == es[1])) {
            return Err(
                ErrorKind::AmbiguousDelimiterSet {
                    block_start: syntax.block_start,
                    comment_start: syntax.comment_start,
                    expr_start: syntax.expr_start,
                },
            );
        }
        Ok(syntax)
    }
}

impl Default for Syntax {
    fn default() -> (r: Syntax)
        ensures
            r@ == canonical_syntax(),
    {
        Syntax::default_syntax()
    }
}

} // verus!
