use vstd::prelude::*;

use crate::config::{Config, RawConfig, WhitespaceHandling};
use crate::error::{views, ErrorKind, ErrorModel};
use crate::report::CompileError;

verus! {

/// Which diagnostic dumps a declaration asks for.
#[derive(Clone, Copy, Debug, PartialEq, Eq, Structural)]
pub enum Print {
    Off,
    Ast,
    Code,
    All,
}

/// Where a compilation stands.
#[derive(Clone, Copy, Debug, PartialEq, Eq, Structural)]
pub enum Stage {
    LoadConfig,
    ResolveInput,
    DiscoverDependencies,
    BuildContexts,
    BuildHeritage,
    Generate,
    Done,
    Failed,
}

/// What the stage last asked for reported back.
#[derive(Clone, Debug, PartialEq, Eq)]
pub enum Event {
    /// The stage finished; nothing in its result steers what comes next.
    Finished,
    /// Per-file contexts are built; `inherits` tells whether the root
    /// template declares blocks or extends another template.
    ContextsBuilt { inherits: bool },
    /// The inheritance graph is built and knows these block names.
    HeritageBuilt { blocks: Vec<String> },
    /// The code generator produced this text.
    Generated(String),
    /// The stage failed.
    Failed(CompileError),
}

/// What the driver is to do next.
#[derive(Clone, Debug, PartialEq, Eq)]
pub enum Action {
    LoadConfig,
    ResolveInput,
    DiscoverDependencies,
    BuildContexts,
    BuildHeritage,
    /// Generate code, dumping the parsed root template first when `print_ast` holds.
    Generate { print_ast: bool },
    /// Hand out the generated code, dumping it too when `print_code` holds.
    Emit { code: String, print_code: bool },
    /// Stop with this failure.
    Fail(CompileError),
}

/// The decisions of one compilation: the stage reached, the dumps asked
/// for and the block, if any, that the declaration selects.
#[derive(Clone, Debug, PartialEq, Eq)]
pub struct Pipeline {
    pub stage: Stage,
    pub print: Print,
    pub block: Option<String>,
}

pub open spec fn shows_ast(p: Print) -> bool {
    p == Print::Ast || p == Print::All
}

pub open spec fn shows_code(p: Print) -> bool {
    p == Print::Code || p == Print::All
}

/// The event is one that the stage can report.
pub open spec fn fits(stage: Stage, e: Event) -> bool {
    match e {
        Event::Failed(_) => stage != Stage::Done && stage != Stage::Failed,
        Event::Finished => stage == Stage::LoadConfig || stage == Stage::ResolveInput || stage
            == Stage::DiscoverDependencies,
        Event::ContextsBuilt { .. } => stage == Stage::BuildContexts,
        Event::HeritageBuilt { .. } => stage == Stage::BuildHeritage,
        Event::Generated(_) => stage == Stage::Generate,
    }
}

/// The selected block is missing from the inheritance graph.
pub open spec fn block_missing(block: Option<String>, blocks: Seq<String>) -> bool {
    match block {
        Some(b) => !views(blocks).contains(b@),
        None => false,
    }
}

fn contains_str(v: &Vec<String>, s: &String) -> (r: bool)
    ensures
        r == views(v@).contains(s@),
{
    let mut i: usize = 0;
    while i < v.len()
        invariant
            i <= v@.len(),
            forall|j: int| 0 <= j < i ==> views(v@)[j] != s@,
        decreases v@.len() - i,
    {
        if v[i] == *s {
            assert(views(v@)[i as int] == s@);
            return true;
        }
        i = i + 1;
    }
    false
}

impl Pipeline {
    /// Starts a compilation; the first thing to do is to load the configuration.
    pub fn start(print: Print, block: Option<String>) -> (r: (Pipeline, Action))
        ensures
            r.0 == (Pipeline { stage: Stage::LoadConfig, print, block }),
            r.1 is LoadConfig,
    {
        (Pipeline { stage: Stage::LoadConfig, print, block }, Action::LoadConfig)
    }

    /// The event is one that the current stage can report.
    pub fn accepts(&self, e: &Event) -> (r: bool)
        ensures
            r == fits(self.stage, *e),
    {
        match e {
            Event::Failed(_) => self.stage != Stage::Done && self.stage != Stage::Failed,
            Event::Finished => self.stage == Stage::LoadConfig || self.stage == Stage::ResolveInput
                || self.stage == Stage::DiscoverDependencies,
            Event::ContextsBuilt { .. } => self.stage == Stage::BuildContexts,
            Event::HeritageBuilt { .. } => self.stage == Stage::BuildHeritage,
            Event::Generated(_) => self.stage == Stage::Generate,
        }
    }

    /// Takes the outcome of the current stage and decides the next step. A
    /// failure stops everything; the heritage stage runs only for templates
    /// that inherit; a selected block missing from the graph is a failure.
    pub fn step(self, e: Event) -> (r: (Pipeline, Action))
        requires
            fits(self.stage, e),
        ensures
            r.0.print == self.print,
            r.0.block == self.block,
            match e {
                Event::Failed(err) => r.0.stage == Stage::Failed && r.1 == Action::Fail(err),
                Event::Finished => match self.stage {
                    Stage::LoadConfig => r.0.stage == Stage::ResolveInput && r.1 is ResolveInput,
                    Stage::ResolveInput => r.0.stage == Stage::DiscoverDependencies
                        && r.1 is DiscoverDependencies,
                    _ => r.0.stage == Stage::BuildContexts && r.1 is BuildContexts,
                },
                Event::ContextsBuilt { inherits } => if inherits {
                    r.0.stage == Stage::BuildHeritage && r.1 is BuildHeritage
                } else {
                    r.0.stage == Stage::Generate && r.1 == (Action::Generate {
                        print_ast: shows_ast(self.print),
                    })
                },
                Event::HeritageBuilt { blocks } => if block_missing(self.block, blocks@) {
                    &&& r.0.stage == Stage::Failed
                    &&& r.1 matches Action::Fail(f)
                    &&& f.location is None
                    &&& f.kind@ == ErrorModel::UnresolvedInheritedBlock(self.block->0@)
                } else {
                    r.0.stage == Stage::Generate && r.1 == (Action::Generate {
                        print_ast: shows_ast(self.print),
                    })
                },
                Event::Generated(code) => r.0.stage == Stage::Done && r.1 == (Action::Emit {
                    code,
                    print_code: shows_code(self.print),
                }),
            },
    {
        let Pipeline { stage, print, block } = self;
        let print_ast = print == Print::Ast || print == Print::All;
        match e {
            Event::Failed(err) => (Pipeline { stage: Stage::Failed, print, block }, Action::Fail(err)),
            Event::Finished => {
                if stage == Stage::LoadConfig {
                    (Pipeline { stage: Stage::ResolveInput, print, block }, Action::ResolveInput)
                } else if stage == Stage::ResolveInput {
                    (
                        Pipeline { stage: Stage::DiscoverDependencies, print, block },
                        Action::DiscoverDependencies,
                    )
                } else {
                    (Pipeline { stage: Stage::BuildContexts, print, block }, Action::BuildContexts)
                }
            },
            Event::ContextsBuilt { inherits } => {
                if inherits {
                    (Pipeline { stage: Stage::BuildHeritage, print, block }, Action::BuildHeritage)
                } else {
                    (Pipeline { stage: Stage::Generate, print, block }, Action::Generate { print_ast })
                }
            },
            Event::HeritageBuilt { blocks } => {
                let missing = match &block {
                    Some(b) => !contains_str(&blocks, b),
                    None => false,
                };
                if missing {
                    let name = match &block {
                        Some(b) => b.clone(),
                        None => String::new(),
                    };
                    let err = CompileError::new(ErrorKind::UnresolvedInheritedBlock(name), None);
                    (Pipeline { stage: Stage::Failed, print, block }, Action::Fail(err))
                } else {
                    (Pipeline { stage: Stage::Generate, print, block }, Action::Generate { print_ast })
                }
            },
            Event::Generated(code) => {
                let print_code = print == Print::Code || print == Print::All;
                (Pipeline { stage: Stage::Done, print, block }, Action::Emit { code, print_code })
            },
        }
    }
}

/// What a compilation hands back: the failure, if there was one, and code,
/// if any was produced.
#[derive(Clone, Debug, PartialEq, Eq)]
pub struct Outcome {
    pub error: Option<CompileError>,
    pub code: Option<String>,
}

impl Outcome {
    /// A compilation that produced `code`.
    pub fn success(code: String) -> (r: Outcome)
        ensures
            r.error is None,
            r.code == Some(code),
    {
        Outcome { error: None, code: Some(code) }
    }

    /// A failed compilation, completed by what the degraded pipeline produced:
    /// its code is kept when there is some, its own failure is dropped, and
    /// the failure reported is always the first one.
    pub fn with_fallback(error: CompileError, skeleton: Result<String, CompileError>) -> (r: Outcome)
        ensures
            r.error == Some(error),
            r.code == match skeleton {
                Ok(s) => Some(s),
                Err(_) => None,
            },
    {
        let code = match skeleton {
            Ok(s) => Some(s),
            Err(_) => None,
        };
        Outcome { error: Some(error), code }
    }
}

impl RawConfig {
    /// The document with nothing in it: every setting takes its default.
    pub fn empty() -> (r: RawConfig)
        ensures
            r == (RawConfig { general: None, syntax: None, escaper: None }),
    {
        RawConfig { general: None, syntax: None, escaper: None }
    }
}

impl Config {
    /// The configuration of an empty document under `root`, which the
    /// degraded pipeline uses; it cannot fail.
    pub fn fallback(root: &str) -> (r: Config)
        ensures
            r.wf(),
            r.resolves_from(RawConfig { general: None, syntax: None, escaper: None }, root@, None),
    {
        proof {
            crate::laws::lemma_empty_document_defaults(root@);
        }
        match Config::new(RawConfig::empty(), root, None) {
            Ok(c) => c,
            Err(_) => {
                proof {
                    assert(false);
                }
                Config {
                    dirs: Vec::new(),
                    syntaxes: Vec::new(),
                    default_syntax: String::new(),
                    escapers: Vec::new(),
                    whitespace: WhitespaceHandling::Preserve,
                }
            },
        }
    }
}

} // verus!
