use vstd::prelude::*;

verus! {

/// Every way in which configuration, lookup or compilation can fail.
#[derive(Clone, Debug, PartialEq, Eq)]
pub enum ErrorKind {
    /// The configuration document could not be decoded; holds the decoder's words.
    ConfigDocumentMalformed(String),
    /// Two syntax entries (or one entry and the built-in set) share this name.
    DuplicateSyntaxName(String),
    /// The configured default syntax names no known syntax.
    UnknownDefaultSyntax(String),
    /// A delimiter is not exactly two bytes long.
    InvalidDelimiterLength,
    /// The three opening delimiters share neither their first nor their second byte.
    AmbiguousDelimiterSet { block_start: String, comment_start: String, expr_start: String },
    /// An explicitly named configuration document is missing under this root.
    ConfigFileMissingExplicit(String),
    /// No candidate path for this name exists; holds the name and the search path.
    TemplateNotFound { name: String, dirs: Vec<String> },
    /// The template source at this path could not be read.
    SourceReadFailure(String),
    /// The requested block is absent from the inheritance graph.
    UnresolvedInheritedBlock(String),
    /// The template parser reported this failure.
    DependencyDiscoveryFailure(String),
    /// The code generator reported this failure.
    GenerationFailure(String),
}

/// The mathematical picture of an [`ErrorKind`]: strings become character sequences.
pub enum ErrorModel {
    ConfigDocumentMalformed(Seq<char>),
    DuplicateSyntaxName(Seq<char>),
    UnknownDefaultSyntax(Seq<char>),
    InvalidDelimiterLength,
    AmbiguousDelimiterSet(Seq<char>, Seq<char>, Seq<char>),
    ConfigFileMissingExplicit(Seq<char>),
    TemplateNotFound(Seq<char>, Seq<Seq<char>>),
    SourceReadFailure(Seq<char>),
    UnresolvedInheritedBlock(Seq<char>),
    DependencyDiscoveryFailure(Seq<char>),
    GenerationFailure(Seq<char>),
}

/// The character sequences of a list of strings.
pub open spec fn views(v: Seq<String>) -> Seq<Seq<char>> {
    v.map_values(|s: String| s@)
}

impl View for ErrorKind {
    type V = ErrorModel;

    open spec fn view(&self) -> ErrorModel {
        match self {
            ErrorKind::ConfigDocumentMalformed(m) => ErrorModel::ConfigDocumentMalformed(m@),
            ErrorKind::DuplicateSyntaxName(n) => ErrorModel::DuplicateSyntaxName(n@),
            ErrorKind::UnknownDefaultSyntax(n) => ErrorModel::UnknownDefaultSyntax(n@),
            ErrorKind::InvalidDelimiterLength => ErrorModel::InvalidDelimiterLength,
            ErrorKind::AmbiguousDelimiterSet { block_start, comment_start, expr_start } =>
                ErrorModel::AmbiguousDelimiterSet(block_start@, comment_start@, expr_start@),
            ErrorKind::ConfigFileMissingExplicit(r) => ErrorModel::ConfigFileMissingExplicit(r@),
            ErrorKind::TemplateNotFound { name, dirs } =>
                ErrorModel::TemplateNotFound(name@, views(dirs@)),
            ErrorKind::SourceReadFailure(p) => ErrorModel::SourceReadFailure(p@),
            ErrorKind::UnresolvedInheritedBlock(b) => ErrorModel::UnresolvedInheritedBlock(b@),
            ErrorKind::DependencyDiscoveryFailure(m) => ErrorModel::DependencyDiscoveryFailure(m@),
            ErrorKind::GenerationFailure(m) => ErrorModel::GenerationFailure(m@),
        }
    }
}

} // verus!
