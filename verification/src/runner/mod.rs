//! Choosing how to find, select and run the tests of a project.
use vstd::prelude::*;

use crate::errors::FztError;
use crate::external::{lowercase, to_lowercase};
use crate::runtime::{Debugger, PythonDebugger};
use crate::test_sets::str_views;
use crate::text::append_str;

pub mod failed;
pub mod history;
pub mod selection;

verus! {

/// Which tests a run takes.
#[derive(Debug, Clone, Copy, PartialEq, Eq, Structural)]
pub enum RunnerMode {
    /// All tests.
    All,
    /// The most recent selection.
    Last,
    /// A selection picked from the history.
    History,
    /// A new selection.
    Select,
}

/// What the search engine previews beside the candidates.
#[derive(Debug, Clone, Copy, PartialEq, Eq, Structural)]
pub enum Preview {
    File,
    Test,
    Directory,
}

/// What the user selects from.
#[derive(Debug, Clone, Copy, PartialEq, Eq, Structural)]
pub enum FilterMode {
    Test,
    File,
    Directory,
    RunTime,
    Append,
}

/// The language of a project, with the parser and runtime of its tests.
#[derive(Debug, Clone)]
pub enum Language {
    Python { parser: String, runtime: String },
    Java { test_framework: String, runtime: String },
    Rust,
}

/// The runners.
#[derive(Debug, Clone, Copy, PartialEq, Eq, Structural)]
pub enum RunnerName {
    RustPythonRunner,
    PytestRunner,
    JavaJunit5Runner,
    RustCargoRunner,
}

/// What is saved about a project's runner.
#[derive(Debug, Clone)]
pub struct MetaData {
    pub runner_name: RunnerName,
    pub search_engine: String,
    pub runtime: String,
}

/// How a run is configured.
#[derive(Debug, Clone)]
pub struct RunnerConfig {
    pub clear_cache: bool,
    pub verbose: bool,
    pub clear_history: bool,
    pub runtime_args: Vec<String>,
    pub mode: RunnerMode,
    pub preview: Option<Preview>,
    pub filter_mode: FilterMode,
    pub query: Option<String>,
    pub debugger: Option<Debugger>,
    pub run_failed: bool,
    pub language: Language,
}

impl RunnerConfig {
    pub fn new(
        clear_cache: bool,
        verbose: bool,
        clear_history: bool,
        runtime_args: Vec<String>,
        mode: RunnerMode,
        preview: Option<Preview>,
        filter_mode: FilterMode,
        query: Option<String>,
        debugger: Option<Debugger>,
        run_failed: bool,
        language: Language,
    ) -> (r: RunnerConfig)
        ensures
            r.clear_cache == clear_cache,
            r.verbose == verbose,
            r.clear_history == clear_history,
            r.runtime_args == runtime_args,
            r.mode == mode,
            r.preview == preview,
            r.filter_mode == filter_mode,
            r.query == query,
            r.debugger == debugger,
            r.run_failed == run_failed,
            r.language == language,
    {
        RunnerConfig {
            clear_cache,
            verbose,
            clear_history,
            runtime_args,
            mode,
            preview,
            filter_mode,
            query,
            debugger,
            run_failed,
            language,
        }
    }
}

/// The mode the command-line flags ask for: all, else the last selection, else the history,
/// else a new selection.
pub fn runner_mode(all: bool, last: bool, history: bool) -> (r: RunnerMode)
    ensures
        r == if all {
            RunnerMode::All
        } else if last {
            RunnerMode::Last
        } else if history {
            RunnerMode::History
        } else {
            RunnerMode::Select
        },
{
    if all {
        RunnerMode::All
    } else if last {
        RunnerMode::Last
    } else if history {
        RunnerMode::History
    } else {
        RunnerMode::Select
    }
}

/// The first index of `--` in `args`.
pub open spec fn dash_dash_index(args: Seq<Seq<char>>) -> Option<int> {
    if exists|i: int| 0 <= i < args.len() && args[i] == "--"@ {
        Some(choose|i: int| 0 <= i < args.len() && args[i] == "--"@ && forall|j: int| 0 <= j < i ==> args[j] != "--"@)
    } else {
        None
    }
}

/// Splits the command line at the first `--`: what comes before is for this program, what
/// comes after for the test runtime.
pub fn split_runtime_args(args: Vec<String>) -> (r: (Vec<String>, Vec<String>))
    ensures
        forall|i: int| 0 <= i < args@.len() && args@[i]@ == "--"@ ==> {
            let first = choose|k: int| 0 <= k < args@.len() && args@[k]@ == "--"@ && forall|j: int| 0 <= j < k ==> args@[j]@ != "--"@;
            str_views(r.0@) == str_views(args@).subrange(0, first) && str_views(r.1@) == str_views(args@).subrange(first + 1, args@.len() as int)
        },
        (forall|i: int| 0 <= i < args@.len() ==> args@[i]@ != "--"@) ==> str_views(r.0@) == str_views(args@) && r.1@.len() == 0,
{
    let sep = "--".to_owned();
    let mut pos: usize = 0;
    while pos < args.len()
        invariant
            pos <= args@.len(),
            sep@ == "--"@,
            forall|j: int| 0 <= j < pos ==> args@[j]@ != "--"@,
        ensures
            pos <= args@.len(),
            pos < args@.len() ==> args@[pos as int]@ == "--"@,
            forall|j: int| 0 <= j < pos ==> args@[j]@ != "--"@,
        decreases args@.len() - pos,
    {
        if args[pos] == sep {
            break;
        }
        pos = pos + 1;
    }
    let mut before: Vec<String> = Vec::new();
    let mut after: Vec<String> = Vec::new();
    let mut i: usize = 0;
    while i < args.len()
        invariant
            i <= args@.len(),
            pos <= args@.len(),
            pos < args@.len() ==> args@[pos as int]@ == "--"@,
            forall|j: int| 0 <= j < pos ==> args@[j]@ != "--"@,
            str_views(before@) == str_views(args@).subrange(0, if i < pos { i as int } else { pos as int }),
            str_views(after@) == if i <= pos + 1 {
                Seq::<Seq<char>>::empty()
            } else {
                str_views(args@).subrange(pos + 1, i as int)
            },
        decreases args@.len() - i,
    {
        let ghost b0 = before@;
        let ghost a0 = after@;
        if i < pos {
            before.push(args[i].clone());
            assert(str_views(before@) =~= str_views(b0).push(args@[i as int]@));
        } else if i > pos {
            after.push(args[i].clone());
            assert(str_views(after@) =~= str_views(a0).push(args@[i as int]@));
        }
        assert(str_views(args@).subrange(0, if i + 1 < pos { i + 1 } else { pos as int }) =~= if i < pos {
            str_views(args@).subrange(0, i as int).push(args@[i as int]@)
        } else {
            str_views(args@).subrange(0, pos as int)
        });
        if i > pos {
            assert(str_views(args@).subrange(pos + 1, i + 1) =~= (if i <= pos + 1 {
                Seq::<Seq<char>>::empty()
            } else {
                str_views(args@).subrange(pos + 1, i as int)
            }).push(args@[i as int]@));
        }
        i = i + 1;
    }
    proof {
        if pos < args@.len() {
            let first = choose|k: int| 0 <= k < args@.len() && args@[k]@ == "--"@ && forall|j: int| 0 <= j < k ==> args@[j]@ != "--"@;
            assert(0 <= pos < args@.len() && args@[pos as int]@ == "--"@ && forall|j: int| 0 <= j < pos ==> args@[j]@ != "--"@);
            if first < pos {
                assert(args@[first]@ != "--"@);
            }
            if first > pos {
                assert(args@[pos as int]@ != "--"@);
            }
            assert(first == pos);
        } else {
            assert(str_views(args@).subrange(0, pos as int) =~= str_views(args@));
        }
    }
    (before, after)
}

/// The project id a language's runner keeps its cache under.
pub open spec fn project_id(language: Language, project_hash: Seq<char>) -> Seq<char> {
    match language {
        Language::Python { parser, runtime } => if parser@ == "rustpython"@ {
            project_hash + "-rust-python"@
        } else {
            project_hash + "-pytest"@
        },
        Language::Java { .. } => project_hash + "-java-junit5"@,
        Language::Rust => project_hash + "-rust-cargo"@,
    }
}

/// The project id a language's runner keeps its cache under.
pub fn runner_project_id(language: &Language, project_hash: &str) -> (r: String)
    ensures
        r@ == project_id(*language, project_hash@),
{
    let mut r = project_hash.to_owned();
    match language {
        Language::Python { parser, .. } => {
            if *parser == "rustpython".to_owned() {
                append_str(&mut r, "-rust-python");
            } else {
                append_str(&mut r, "-pytest");
            }
        },
        Language::Java { .. } => append_str(&mut r, "-java-junit5"),
        Language::Rust => append_str(&mut r, "-rust-cargo"),
    }
    r
}

/// The language that saved metadata names.
pub fn language_of(meta_data: &MetaData) -> (r: Language)
    ensures
        match meta_data.runner_name {
            RunnerName::RustPythonRunner => r matches Language::Python { parser, runtime } && parser@ == "rustpython"@
                && runtime@ == meta_data.runtime@,
            RunnerName::PytestRunner => r matches Language::Python { parser, runtime } && parser@ == "pytest"@ && runtime@
                == meta_data.runtime@,
            RunnerName::JavaJunit5Runner => r matches Language::Java { test_framework, runtime } && test_framework@
                == "junit5"@ && runtime@ == meta_data.runtime@,
            RunnerName::RustCargoRunner => r is Rust,
        },
{
    match meta_data.runner_name {
        RunnerName::RustPythonRunner => Language::Python {
            parser: "rustpython".to_owned(),
            runtime: meta_data.runtime.clone(),
        },
        RunnerName::PytestRunner => Language::Python { parser: "pytest".to_owned(), runtime: meta_data.runtime.clone() },
        RunnerName::JavaJunit5Runner => Language::Java {
            test_framework: "junit5".to_owned(),
            runtime: meta_data.runtime.clone(),
        },
        RunnerName::RustCargoRunner => Language::Rust,
    }
}

/// The debuggers a user can pick from.
pub fn python_debugger_names() -> (r: Vec<&'static str>)
    ensures
        r@.map_values(|s: &str| s@) == seq!["pdb"@, "ipdb"@, "IPython"@, "pudb"@, "web-pdb"@],
{
    let r = vec!["pdb", "ipdb", "IPython", "pudb", "web-pdb"];
    assert(r@.map_values(|s: &str| s@) =~= seq!["pdb"@, "ipdb"@, "IPython"@, "pudb"@, "web-pdb"@]);
    r
}

/// The debugger a picked name stands for, compared in lower case.
pub open spec fn debugger_named(lower: Seq<char>) -> Option<PythonDebugger> {
    if lower == "pdb"@ {
        Some(PythonDebugger::Pdb)
    } else if lower == "ipdb"@ {
        Some(PythonDebugger::Ipdb)
    } else if lower == "ipython"@ {
        Some(PythonDebugger::IPython)
    } else if lower == "pudb"@ {
        Some(PythonDebugger::Pudb)
    } else if lower == "web-pdb"@ {
        Some(PythonDebugger::WebPdb)
    } else {
        None
    }
}

/// The debugger the user picked; an error for a name that is none of them.
pub fn python_debugger_choice(selection: &str) -> (r: Result<Debugger, FztError>)
    ensures
        match debugger_named(lowercase(selection@)) {
            Some(d) => r == Ok::<Debugger, FztError>(Debugger::Python(d)),
            None => r matches Err(FztError::InternalError(m)) && m@ == "Python debugger option `"@ + lowercase(
                selection@,
            ) + "` could not be parsed."@,
        },
{
    let lower = to_lowercase(selection);
    if lower == "pdb".to_owned() {
        Ok(Debugger::Python(PythonDebugger::Pdb))
    } else if lower == "ipdb".to_owned() {
        Ok(Debugger::Python(PythonDebugger::Ipdb))
    } else if lower == "ipython".to_owned() {
        Ok(Debugger::Python(PythonDebugger::IPython))
    } else if lower == "pudb".to_owned() {
        Ok(Debugger::Python(PythonDebugger::Pudb))
    } else if lower == "web-pdb".to_owned() {
        Ok(Debugger::Python(PythonDebugger::WebPdb))
    } else {
        let mut m = "Python debugger option `".to_owned();
        append_str(&mut m, lower.as_str());
        append_str(&mut m, "` could not be parsed.");
        Err(FztError::InternalError(m))
    }
}

/// Python runs accept only Python debuggers (once a picked one has replaced `Select`).
pub fn validate_python_debugger(debugger: &Option<Debugger>) -> (r: Result<(), FztError>)
    ensures
        match debugger {
            Some(Debugger::Select) => r matches Err(FztError::InvalidArgument(m)) && m@
                == "Invalid debugger option. Supported are: Python = [pdb, ipdb, IPython, pudb, web-pdb]"@,
            _ => r is Ok,
        },
{
    match debugger {
        Some(Debugger::Select) => Err(
            FztError::InvalidArgument(
                "Invalid debugger option. Supported are: Python = [pdb, ipdb, IPython, pudb, web-pdb]".to_owned(),
            ),
        ),
        _ => Ok(()),
    }
}

/// Rust and Java runs have no debuggers, so any debugger is refused.
pub fn validate_no_debugger(debugger: &Option<Debugger>) -> (r: Result<(), FztError>)
    ensures
        match debugger {
            Some(_) => r matches Err(FztError::InvalidArgument(m)) && m@ == "Invalid debugger option."@,
            None => r is Ok,
        },
{
    match debugger {
        Some(_) => Err(FztError::InvalidArgument("Invalid debugger option.".to_owned())),
        None => Ok(()),
    }
}

/// The names compared here are different strings.
proof fn lemma_names_differ()
    ensures
        "rustpython"@ != "pytest"@,
        "cargo"@ != "cargo-nextest"@,
{
    reveal_strlit("rustpython");
    reveal_strlit("pytest");
    reveal_strlit("cargo");
    reveal_strlit("cargo-nextest");
    assert("rustpython"@[1] != "pytest"@[1]);
    assert("cargo"@.len() != "cargo-nextest"@.len());
}

/// The Python runner for a parser and runtime, compared in lower case.
pub fn python_runner_name(parser: &str, runtime: &str) -> (r: Result<RunnerName, FztError>)
    ensures
        lowercase(parser@) == "rustpython"@ && lowercase(runtime@) == "pytest"@ ==> r == Ok::<RunnerName, FztError>(
            RunnerName::RustPythonRunner,
        ),
        lowercase(parser@) == "pytest"@ && lowercase(runtime@) == "pytest"@ ==> r == Ok::<RunnerName, FztError>(
            RunnerName::PytestRunner,
        ),
        !((lowercase(parser@) == "rustpython"@ || lowercase(parser@) == "pytest"@) && lowercase(runtime@) == "pytest"@)
            ==> (r matches Err(FztError::GeneralParsingError(m)) && m@ == "Combination unknown: "@ + parser@ + " "@
            + runtime@),
{
    proof {
        lemma_names_differ();
    }
    let p = to_lowercase(parser);
    let rt = to_lowercase(runtime);
    if rt == "pytest".to_owned() {
        if p == "rustpython".to_owned() {
            return Ok(RunnerName::RustPythonRunner);
        }
        if p == "pytest".to_owned() {
            return Ok(RunnerName::PytestRunner);
        }
    }
    let mut m = "Combination unknown: ".to_owned();
    append_str(&mut m, parser);
    append_str(&mut m, " ");
    append_str(&mut m, runtime);
    Err(FztError::GeneralParsingError(m))
}

/// The Java runner for a test framework and runtime, compared in lower case.
pub fn java_runner_name(test_framework: &str, runtime: &str) -> (r: Result<RunnerName, FztError>)
    ensures
        lowercase(test_framework@) == "junit5"@ && lowercase(runtime@) == "gradle"@ ==> r == Ok::<RunnerName, FztError>(
            RunnerName::JavaJunit5Runner,
        ),
        !(lowercase(test_framework@) == "junit5"@ && lowercase(runtime@) == "gradle"@) ==> (r matches Err(
            FztError::GeneralParsingError(m),
        ) && m@ == "Combination unknown: "@ + test_framework@ + " "@ + runtime@),
{
    let f = to_lowercase(test_framework);
    let rt = to_lowercase(runtime);
    if f == "junit5".to_owned() && rt == "gradle".to_owned() {
        return Ok(RunnerName::JavaJunit5Runner);
    }
    let mut m = "Combination unknown: ".to_owned();
    append_str(&mut m, test_framework);
    append_str(&mut m, " ");
    append_str(&mut m, runtime);
    Err(FztError::GeneralParsingError(m))
}

/// The runtimes of Rust tests.
#[derive(Debug, Clone, Copy, PartialEq, Eq, Structural)]
pub enum RustRuntimeKind {
    Cargo,
    Nextest,
}

/// The Rust runtime a name stands for, compared in lower case.
pub fn rust_runtime(runtime: &str) -> (r: Result<RustRuntimeKind, FztError>)
    ensures
        lowercase(runtime@) == "cargo"@ ==> r == Ok::<RustRuntimeKind, FztError>(RustRuntimeKind::Cargo),
        lowercase(runtime@) == "cargo-nextest"@ ==> r == Ok::<RustRuntimeKind, FztError>(RustRuntimeKind::Nextest),
        lowercase(runtime@) != "cargo"@ && lowercase(runtime@) != "cargo-nextest"@ ==> (r matches Err(
            FztError::GeneralParsingError(m),
        ) && m@ == "Runtime unknown: "@ + runtime@),
{
    proof {
        lemma_names_differ();
    }
    let rt = to_lowercase(runtime);
    if rt == "cargo".to_owned() {
        return Ok(RustRuntimeKind::Cargo);
    }
    if rt == "cargo-nextest".to_owned() {
        return Ok(RustRuntimeKind::Nextest);
    }
    let mut m = "Runtime unknown: ".to_owned();
    append_str(&mut m, runtime);
    Err(FztError::GeneralParsingError(m))
}

} // verus!
