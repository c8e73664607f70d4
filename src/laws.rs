use vstd::prelude::*;

use crate::config::{
    builtin_escapers, default_name, entry_failure, names_before, raw_escapers, raw_syntaxes,
    resolve_failure, resolved_default, resolved_dirs, resolved_escapers, resolved_whitespace,
    table_failure, Config, RawConfig, RawEscaper, WhitespaceHandling,
};
use crate::error::{views, ErrorModel};
use crate::locate::{candidates, first_present};
use crate::paths::{join_path, sibling_path};
use crate::syntax::{
    canonical_syntax, disambiguated, lengths_ok, merged, syntax_failure, two_bytes, RawSyntax,
};

verus! {

/// An empty document resolves without failure to the single built-in syntax
/// named `default`, which is also the default syntax, the search path
/// `root/templates` and the `Preserve` whitespace policy.
pub proof fn lemma_empty_document_defaults(root: Seq<char>)
    ensures
        ({
            let raw = RawConfig { general: None, syntax: None, escaper: None };
            &&& resolve_failure(raw) is None
            &&& names_before(raw_syntaxes(raw), raw_syntaxes(raw).len() as int) == seq![
                "default"@,
            ]
            &&& resolved_default(raw) == "default"@
            &&& resolved_dirs(raw, root) == seq![join_path(root, "templates"@)]
            &&& resolved_whitespace(raw, None) == WhitespaceHandling::Preserve
            &&& resolved_escapers(raw) == builtin_escapers()
        }),
{
    let raw = RawConfig { general: None, syntax: None, escaper: None };
    assert(raw_syntaxes(raw).subrange(0, 0).map_values(|e: RawSyntax| e.name@) =~= Seq::<
        Seq<char>,
    >::empty());
    assert(names_before(raw_syntaxes(raw), 0) =~= seq!["default"@]);
    assert(names_before(raw_syntaxes(raw), 0)[0] == default_name());
    assert(raw_escapers(raw).map_values(|e: RawEscaper| (views(e.extensions@), e.path@)) =~= Seq::<
        (Seq<Seq<char>>, Seq<char>),
    >::empty());
    assert(resolved_escapers(raw) =~= builtin_escapers());
}

/// A syntax entry takes each delimiter it states and inherits every other
/// one from the built-in set.
pub proof fn lemma_partial_override(raw: RawSyntax)
    ensures
        merged(raw).block_start == (match raw.block_start {
            Some(s) => s@,
            None => canonical_syntax().block_start,
        }),
        merged(raw).block_end == (match raw.block_end {
            Some(s) => s@,
            None => canonical_syntax().block_end,
        }),
        merged(raw).expr_start == (match raw.expr_start {
            Some(s) => s@,
            None => canonical_syntax().expr_start,
        }),
        merged(raw).expr_end == (match raw.expr_end {
            Some(s) => s@,
            None => canonical_syntax().expr_end,
        }),
        merged(raw).comment_start == (match raw.comment_start {
            Some(s) => s@,
            None => canonical_syntax().comment_start,
        }),
        merged(raw).comment_end == (match raw.comment_end {
            Some(s) => s@,
            None => canonical_syntax().comment_end,
        }),
{
}

/// Overriding any delimiter with a string whose length is not two bytes
/// refuses the entry with `InvalidDelimiterLength`.
pub proof fn lemma_delimiter_length(raw: RawSyntax)
    requires
        (raw.block_start matches Some(s) && !two_bytes(s@)) || (raw.block_end matches Some(s)
            && !two_bytes(s@)) || (raw.expr_start matches Some(s) && !two_bytes(s@)) || (
        raw.expr_end matches Some(s) && !two_bytes(s@)) || (raw.comment_start matches Some(s)
            && !two_bytes(s@)) || (raw.comment_end matches Some(s) && !two_bytes(s@)),
    ensures
        syntax_failure(raw) == Some(ErrorModel::InvalidDelimiterLength),
{
}

/// With lengths in order, the entry is refused as ambiguous exactly when the
/// three opening delimiters share neither their first nor their second byte.
pub proof fn lemma_disambiguation(raw: RawSyntax)
    requires
        lengths_ok(merged(raw)),
    ensures
        !disambiguated(merged(raw)) ==> syntax_failure(raw) == Some(
            ErrorModel::AmbiguousDelimiterSet(
                merged(raw).block_start,
                merged(raw).comment_start,
                merged(raw).expr_start,
            ),
        ),
        disambiguated(merged(raw)) ==> syntax_failure(raw) is None,
{
}

/// Once the first `k` entries hold no refusal, neither do fewer of them.
proof fn lemma_table_prefix(entries: Seq<RawSyntax>, k: nat, m: nat)
    requires
        k <= m,
        table_failure(entries, m) is None,
    ensures
        table_failure(entries, k) is None,
        k < m ==> entry_failure(entries, k as int) is None,
    decreases m - k,
{
    if k < m {
        lemma_table_prefix(entries, k + 1, m);
    }
}

/// Among entries that are each valid, two that share a name refuse the
/// document with `DuplicateSyntaxName`.
pub proof fn lemma_duplicate_name(raw: RawConfig, i: int, j: int)
    requires
        0 <= i < j < raw_syntaxes(raw).len(),
        raw_syntaxes(raw)[i].name@ == raw_syntaxes(raw)[j].name@,
        forall|k: int|
            0 <= k < raw_syntaxes(raw).len() ==> syntax_failure(#[trigger] raw_syntaxes(raw)[k])
                is None,
    ensures
        resolve_failure(raw) matches Some(ErrorModel::DuplicateSyntaxName(_)),
{
    let entries = raw_syntaxes(raw);
    let n = entries.len();
    if table_failure(entries, n) is None {
        lemma_table_prefix(entries, j as nat, n);
        assert(names_before(entries, j)[i + 1] == entries[i].name@);
        assert(names_before(entries, j).contains(entries[j].name@));
    }
    lemma_only_duplicates(entries, n);
}

proof fn lemma_only_duplicates(entries: Seq<RawSyntax>, n: nat)
    requires
        n <= entries.len(),
        forall|k: int| 0 <= k < entries.len() ==> syntax_failure(#[trigger] entries[k]) is None,
    ensures
        table_failure(entries, n) is None || table_failure(entries, n) matches Some(
            ErrorModel::DuplicateSyntaxName(_),
        ),
    decreases n,
{
    if n > 0 {
        lemma_only_duplicates(entries, (n - 1) as nat);
        assert(syntax_failure(entries[n - 1]) is None);
    }
}

/// An entry named `default` collides with the built-in syntax.
pub proof fn lemma_default_name_taken(raw: RawConfig, i: int)
    requires
        0 <= i < raw_syntaxes(raw).len(),
        raw_syntaxes(raw)[i].name@ == "default"@,
        forall|k: int|
            0 <= k < raw_syntaxes(raw).len() ==> syntax_failure(#[trigger] raw_syntaxes(raw)[k])
                is None,
    ensures
        resolve_failure(raw) matches Some(ErrorModel::DuplicateSyntaxName(_)),
{
    let entries = raw_syntaxes(raw);
    let n = entries.len();
    if table_failure(entries, n) is None {
        lemma_table_prefix(entries, i as nat, n);
        assert(names_before(entries, i)[0] == "default"@);
    }
    lemma_only_duplicates(entries, n);
}

/// A default syntax name that no syntax carries refuses the document with
/// `UnknownDefaultSyntax`, once the entries themselves are in order.
pub proof fn lemma_dangling_default(raw: RawConfig)
    requires
        table_failure(raw_syntaxes(raw), raw_syntaxes(raw).len()) is None,
        resolved_default(raw) != "default"@,
        forall|k: int|
            0 <= k < raw_syntaxes(raw).len() ==> #[trigger] raw_syntaxes(raw)[k].name@
                != resolved_default(raw),
    ensures
        resolve_failure(raw) == Some(ErrorModel::UnknownDefaultSyntax(resolved_default(raw))),
{
    let entries = raw_syntaxes(raw);
    let names = names_before(entries, entries.len() as int);
    if names.contains(resolved_default(raw)) {
        let k = choose|k: int| 0 <= k < names.len() && names[k] == resolved_default(raw);
        if k > 0 {
            assert(names[k] == entries[k - 1].name@);
        }
    }
}

/// The configured escaper rules come first, in document order, and the
/// built-in rules follow them in their fixed order.
pub proof fn lemma_escaper_order(raw: RawConfig)
    ensures
        ({
            let user = raw_escapers(raw);
            let rules = resolved_escapers(raw);
            &&& rules.len() == user.len() + 3
            &&& forall|k: int|
                0 <= k < user.len() ==> #[trigger] rules[k] == (
                    views(user[k].extensions@),
                    user[k].path@,
                )
            &&& rules.subrange(user.len() as int, rules.len() as int) == builtin_escapers()
        }),
{
    let user = raw_escapers(raw);
    let rules = resolved_escapers(raw);
    assert(rules.subrange(user.len() as int, rules.len() as int) =~= builtin_escapers());
}

/// Two configurations resolved from the same document, root and whitespace
/// choice agree field by field.
pub proof fn lemma_resolution_deterministic(
    a: Config,
    b: Config,
    raw: RawConfig,
    root: Seq<char>,
    site: Option<WhitespaceHandling>,
)
    requires
        a.resolves_from(raw, root, site),
        b.resolves_from(raw, root, site),
    ensures
        a.model() == b.model(),
{
    let entries = raw_syntaxes(raw);
    assert(a.syntax_names().len() == entries.len() + 1);
    assert(b.syntax_names().len() == entries.len() + 1);
    assert forall|k: int| 0 <= k < a.syntax_models().len() implies a.syntax_models()[k]
        == b.syntax_models()[k] by {
        assert(a.syntax_names()[k] == b.syntax_names()[k]);
        if k > 0 {
            let i = k - 1;
            assert(a.syntaxes@[i + 1].1@ == merged(entries[i]));
            assert(b.syntaxes@[i + 1].1@ == merged(entries[i]));
        }
    }
    assert(a.syntax_models() =~= b.syntax_models());
}

/// A template beside the calling file is found there, whatever the search
/// directories hold.
pub proof fn lemma_sibling_first(
    dirs: Seq<Seq<char>>,
    name: Seq<char>,
    caller: Seq<char>,
    disk: Set<Seq<char>>,
)
    requires
        disk.contains(sibling_path(caller, name)),
    ensures
        first_present(candidates(dirs, name, Some(caller)), disk) == Some(
            sibling_path(caller, name),
        ),
{
}

/// Without a template beside the calling file, the search directories are
/// tried in order and the first that holds the name wins; none holding it
/// means the template is not found.
pub proof fn lemma_search_path_order(
    dirs: Seq<Seq<char>>,
    name: Seq<char>,
    caller: Option<Seq<char>>,
    disk: Set<Seq<char>>,
)
    requires
        caller matches Some(c) ==> !disk.contains(sibling_path(c, name)),
    ensures
        forall|k: int|
            #![trigger dirs[k]]
            0 <= k < dirs.len() && disk.contains(join_path(dirs[k], name)) && (forall|j: int|
                0 <= j < k ==> !disk.contains(#[trigger] join_path(dirs[j], name)))
                ==> first_present(candidates(dirs, name, caller), disk) == Some(
                join_path(dirs[k], name),
            ),
        (forall|j: int| 0 <= j < dirs.len() ==> !disk.contains(#[trigger] join_path(dirs[j], name)))
            ==> first_present(candidates(dirs, name, caller), disk) is None,
{
    let paths = dirs.map_values(|d: Seq<char>| join_path(d, name));
    assert(candidates(dirs, name, caller).len() > 0 ==> first_present(candidates(dirs, name, caller), disk)
        == first_present(paths, disk)) by {
        if caller is Some {
            assert(candidates(dirs, name, caller).drop_first() =~= paths);
        }
    }
    assert forall|k: int|
        #![trigger dirs[k]]
        0 <= k < dirs.len() && disk.contains(join_path(dirs[k], name)) && (forall|j: int|
            0 <= j < k ==> !disk.contains(#[trigger] join_path(dirs[j], name)))
            implies first_present(paths, disk) == Some(join_path(dirs[k], name)) by {
        lemma_first_at(paths, k, disk);
    }
    if forall|j: int| 0 <= j < dirs.len() ==> !disk.contains(#[trigger] join_path(dirs[j], name)) {
        lemma_none_present(paths, disk);
        if caller is Some {
            assert(candidates(dirs, name, caller).drop_first() =~= paths);
        }
    }
}

proof fn lemma_first_at(cands: Seq<Seq<char>>, k: int, disk: Set<Seq<char>>)
    requires
        0 <= k < cands.len(),
        disk.contains(cands[k]),
        forall|j: int| 0 <= j < k ==> !disk.contains(#[trigger] cands[j]),
    ensures
        first_present(cands, disk) == Some(cands[k]),
    decreases k,
{
    if k > 0 {
        lemma_first_at(cands.drop_first(), k - 1, disk);
    }
}

proof fn lemma_none_present(cands: Seq<Seq<char>>, disk: Set<Seq<char>>)
    requires
        forall|j: int| 0 <= j < cands.len() ==> !disk.contains(#[trigger] cands[j]),
    ensures
        first_present(cands, disk) is None,
    decreases cands.len(),
{
    if cands.len() > 0 {
        lemma_none_present(cands.drop_first(), disk);
    }
}

} // verus!
