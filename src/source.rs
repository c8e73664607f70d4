use vstd::prelude::*;

use crate::error::{ErrorKind, ErrorModel};
use crate::paths::{join, join_path};

verus! {

/// The name of the configuration document looked for at the project root.
pub open spec fn default_config_name() -> Seq<char> {
    "askama.toml"@
}

/// Where the configuration document is looked for: the explicit path, or
/// `askama.toml`, under `root`.
pub fn config_file_path(root: &str, config_path: Option<&str>) -> (r: String)
    ensures
        r@ == join_path(
            root@,
            match config_path {
                Some(p) => p@,
                None => default_config_name(),
            },
        ),
{
    match config_path {
        Some(p) => join(root, p),
        None => join(root, "askama.toml"),
    }
}

/// The configuration text, given whether the document was named explicitly
/// and its contents where it exists: a missing explicit document is a
/// failure naming `root`, a missing default one reads as empty.
pub fn config_document(root: &str, explicit: bool, contents: Option<String>) -> (r: Result<
    String,
    ErrorKind,
>)
    ensures
        match contents {
            Some(t) => r == Ok::<String, ErrorKind>(t),
            None => if explicit {
                r matches Err(e) && e@ == ErrorModel::ConfigFileMissingExplicit(root@)
            } else {
                r matches Ok(t) && t@.len() == 0
            },
        },
{
    match contents {
        Some(t) => Ok(t),
        None => if explicit {
            Err(ErrorKind::ConfigFileMissingExplicit(root.to_owned()))
        } else {
            Ok(String::new())
        },
    }
}

/// The template text with one final line break, if there is one, removed.
pub open spec fn trimmed_source(s: Seq<char>) -> Seq<char> {
    if s.len() > 0 && s.last() == '\n' {
        s.drop_last()
    } else {
        s
    }
}

/// Drops the final line break of a template's text.
pub fn trim_template_source(source: &str) -> (r: String)
    ensures
        r@ == trimmed_source(source@),
{
    let n = source.unicode_len();
    if n > 0 && source.get_char(n - 1) == '\n' {
        let r = source.substring_char(0, n - 1).to_owned();
        assert(r@ =~= source@.drop_last());
        r
    } else {
        source.to_owned()
    }
}

} // verus!
