//! The data that describes a compilation request and its outcome.

use vstd::prelude::*;
use vstd::string::*;
use crate::text::{extension, extension_of, same_text};

verus! {

/// The compiler families that the cache supports.
#[derive(Clone, Copy, Debug, PartialEq, Eq, Structural)]
pub enum CCompilerKind {
    /// The MSVC-emulating driver of clang.
    ClangCl,
    /// Clang compiling HIP sources.
    ClangHIP,
    /// The heterogeneous-compute compiler.
    HCC,
    /// The CUDA compiler driver.
    NVCC,
}

/// The language of a source file.
#[derive(Clone, Copy, Debug, PartialEq, Eq, Structural)]
pub enum Language {
    C,
    Cxx,
    ObjectiveC,
    ObjectiveCxx,
}

/// Whether the result of a compilation may be stored in the cache.
#[derive(Clone, Copy, Debug, PartialEq, Eq, Structural)]
pub enum Cacheable {
    Yes,
    No,
}

/// The language that a name, as given to an explicit language flag, selects.
pub open spec fn language_named(name: Seq<char>) -> Option<Language> {
    if name == "c"@ {
        Some(Language::C)
    } else if name == "c++"@ {
        Some(Language::Cxx)
    } else if name == "objective-c"@ {
        Some(Language::ObjectiveC)
    } else if name == "objective-c++"@ {
        Some(Language::ObjectiveCxx)
    } else {
        None
    }
}

/// The language that a file extension stands for. CUDA sources count as C++.
pub open spec fn language_of_extension(ext: Seq<char>) -> Option<Language> {
    if ext == "c"@ {
        Some(Language::C)
    } else if ext == "cc"@ || ext == "cpp"@ || ext == "cxx"@ || ext == "C"@ || ext == "cu"@ {
        Some(Language::Cxx)
    } else if ext == "m"@ {
        Some(Language::ObjectiveC)
    } else if ext == "mm"@ {
        Some(Language::ObjectiveCxx)
    } else {
        None
    }
}

/// The language of the file that `path` names, judged by its extension.
pub open spec fn language_of_file(path: Seq<char>) -> Option<Language> {
    match extension_of(path) {
        Some(ext) => language_of_extension(ext),
        None => None,
    }
}

impl Language {
    /// The name by which the language is given to an explicit language flag.
    pub open spec fn name(self) -> Seq<char> {
        match self {
            Language::C => "c"@,
            Language::Cxx => "c++"@,
            Language::ObjectiveC => "objective-c"@,
            Language::ObjectiveCxx => "objective-c++"@,
        }
    }

    /// The name by which the language is given to an explicit language flag.
    pub fn as_str(&self) -> (s: &'static str)
        ensures
            s@ == self.name(),
    {
        match self {
            Language::C => "c",
            Language::Cxx => "c++",
            Language::ObjectiveC => "objective-c",
            Language::ObjectiveCxx => "objective-c++",
        }
    }

    /// The language that a name selects, if it names one.
    pub fn from_name(name: &str) -> (r: Option<Language>)
        ensures
            r == language_named(name@),
    {
        if same_text(name, "c") {
            Some(Language::C)
        } else if same_text(name, "c++") {
            Some(Language::Cxx)
        } else if same_text(name, "objective-c") {
            Some(Language::ObjectiveC)
        } else if same_text(name, "objective-c++") {
            Some(Language::ObjectiveCxx)
        } else {
            None
        }
    }

    /// The language of a source file, judged by its extension.
    pub fn from_file_name(path: &str) -> (r: Option<Language>)
        ensures
            r == language_of_file(path@),
    {
        let ext = match extension(path) {
            Some(ext) => ext,
            None => {
                return None;
            },
        };
        let e = ext.as_str();
        if same_text(e, "c") {
            Some(Language::C)
        } else if same_text(e, "cc") || same_text(e, "cpp") || same_text(e, "cxx") || same_text(e, "C")
            || same_text(e, "cu") {
            Some(Language::Cxx)
        } else if same_text(e, "m") {
            Some(Language::ObjectiveC)
        } else if same_text(e, "mm") {
            Some(Language::ObjectiveCxx)
        } else {
            None
        }
    }
}

/// The key under which the object file is declared among the outputs.
pub const OBJECT: &'static str = "object";

/// The map that a list of (kind, path) entries stands for: a later entry
/// replaces an earlier one of the same kind.
pub open spec fn entries_map(entries: Seq<(Seq<char>, Seq<char>)>) -> Map<Seq<char>, Seq<char>>
    decreases entries.len(),
{
    if entries.len() == 0 {
        Map::empty()
    } else {
        entries_map(entries.drop_last()).insert(entries.last().0, entries.last().1)
    }
}

/// The declared outputs of a compilation: from the kind of an output to the
/// path where it is to be written.
#[derive(Clone, Debug)]
pub struct Outputs {
    entries: Vec<(String, String)>,
}

impl View for Outputs {
    type V = Map<Seq<char>, Seq<char>>;

    closed spec fn view(&self) -> Map<Seq<char>, Seq<char>> {
        entries_map(self.entries.deep_view())
    }
}

impl Outputs {
    /// No outputs.
    pub fn new() -> (outputs: Outputs)
        ensures
            outputs@ == Map::<Seq<char>, Seq<char>>::empty(),
    {
        let entries: Vec<(String, String)> = Vec::new();
        assert(entries.deep_view() =~= Seq::<(Seq<char>, Seq<char>)>::empty());
        Outputs { entries }
    }

    /// Declares the output of the given kind, replacing an earlier
    /// declaration of that kind.
    pub fn insert(&mut self, kind: &str, path: String)
        ensures
            final(self)@ == old(self)@.insert(kind@, path@),
    {
        let ghost before = self.entries.deep_view();
        let ghost entry = (kind@, path@);
        self.entries.push((String::from_str(kind), path));
        assert(self.entries.deep_view() =~= before.push(entry));
        assert(self.entries.deep_view().drop_last() =~= before);
    }

    /// The path declared for the given kind of output.
    pub fn get(&self, kind: &str) -> (path: Option<&String>)
        ensures
            path.deep_view() == if self@.dom().contains(kind@) {
                Some(self@[kind@])
            } else {
                None
            },
    {
        let ghost all = self.entries.deep_view();
        let mut k: usize = self.entries.len();
        assert(all.take(k as int) =~= all);
        while k > 0
            invariant
                k <= self.entries.len(),
                all == self.entries.deep_view(),
                entries_map(all).dom().contains(kind@) == entries_map(all.take(k as int)).dom().contains(
                    kind@,
                ),
                entries_map(all).dom().contains(kind@) ==> entries_map(all)[kind@] == entries_map(
                    all.take(k as int),
                )[kind@],
            decreases k,
        {
            k -= 1;
            assert(all.take(k + 1).drop_last() =~= all.take(k as int));
            assert(all.take(k + 1).last() == all[k as int]);
            if same_text(self.entries[k].0.as_str(), kind) {
                return Some(&self.entries[k].1);
            }
        }
        assert(all.take(0).len() == 0);
        None
    }

    /// Whether an output of the given kind is declared.
    pub fn contains(&self, kind: &str) -> (b: bool)
        ensures
            b == self@.dom().contains(kind@),
    {
        self.get(kind).is_some()
    }
}

/// The structured form of a compilation request.
#[derive(Clone, Debug)]
pub struct ParsedArguments {
    /// The source file.
    pub input: String,
    /// The language of the source file.
    pub language: Language,
    /// The declared outputs.
    pub outputs: Outputs,
    /// The arguments that the preprocessing step needs.
    pub preprocessor_args: Vec<String>,
    /// The arguments that both steps get.
    pub common_args: Vec<String>,
}

/// The mathematical content of [`ParsedArguments`].
pub struct ParsedModel {
    pub input: Seq<char>,
    pub language: Language,
    pub outputs: Map<Seq<char>, Seq<char>>,
    pub preprocessor_args: Seq<Seq<char>>,
    pub common_args: Seq<Seq<char>>,
}

impl View for ParsedArguments {
    type V = ParsedModel;

    open spec fn view(&self) -> ParsedModel {
        ParsedModel {
            input: self.input@,
            language: self.language,
            outputs: self.outputs@,
            preprocessor_args: self.preprocessor_args.deep_view(),
            common_args: self.common_args.deep_view(),
        }
    }
}

/// Why an invocation cannot go through the cache.
#[derive(Clone, Debug, PartialEq, Eq)]
pub enum Rejection {
    /// A flag that the cache cannot represent was given.
    TooHard(String),
    /// More than one source file was named.
    MultipleInputs,
    /// No source file was named.
    NoInput,
    /// The language of the source file is not known.
    UnknownLanguage,
}

/// The mathematical content of a [`Rejection`].
pub enum RejectionModel {
    TooHard(Seq<char>),
    MultipleInputs,
    NoInput,
    UnknownLanguage,
}

impl View for Rejection {
    type V = RejectionModel;

    open spec fn view(&self) -> RejectionModel {
        match self {
            Rejection::TooHard(flag) => RejectionModel::TooHard(flag@),
            Rejection::MultipleInputs => RejectionModel::MultipleInputs,
            Rejection::NoInput => RejectionModel::NoInput,
            Rejection::UnknownLanguage => RejectionModel::UnknownLanguage,
        }
    }
}

/// The outcome of parsing a command line.
#[derive(Clone, Debug)]
pub enum CompilerArguments {
    /// A compilation of one source file that the cache can handle.
    Recognized(ParsedArguments),
    /// A compilation that must bypass the cache.
    CannotCache(Rejection),
    /// Not a compilation at all: to be run as it is.
    NotACompilation,
}

/// The mathematical content of [`CompilerArguments`].
pub enum CompilerArgumentsModel {
    Recognized(ParsedModel),
    CannotCache(RejectionModel),
    NotACompilation,
}

impl View for CompilerArguments {
    type V = CompilerArgumentsModel;

    open spec fn view(&self) -> CompilerArgumentsModel {
        match self {
            CompilerArguments::Recognized(parsed) => CompilerArgumentsModel::Recognized(parsed@),
            CompilerArguments::CannotCache(why) => CompilerArgumentsModel::CannotCache(why@),
            CompilerArguments::NotACompilation => CompilerArgumentsModel::NotACompilation,
        }
    }
}

/// What a finished process left behind.
#[derive(Clone, Debug, PartialEq, Eq)]
pub struct ProcessResult {
    /// What the process wrote to its standard output.
    pub stdout: Vec<u8>,
    /// What the process wrote to its standard error.
    pub stderr: Vec<u8>,
    /// The exit code, if the process exited by itself.
    pub status: Option<i32>,
}

/// One process to be run, explicit in everything that the child may see:
/// the program, its arguments, all of its environment, its working
/// directory and its standard input. Nothing of the surrounding session is
/// meant to reach it.
#[derive(Clone, Debug, PartialEq, Eq)]
pub struct Invocation {
    pub executable: String,
    pub arguments: Vec<String>,
    /// All the variables that the child finds in its environment.
    pub env_vars: Vec<(String, String)>,
    pub cwd: String,
    /// What the child reads on its standard input, through a pipe; without
    /// it the child has no standard input at all, and never that of the
    /// caller.
    pub stdin: Option<Vec<u8>>,
}

/// The mathematical content of an [`Invocation`].
pub struct InvocationModel {
    pub executable: Seq<char>,
    pub arguments: Seq<Seq<char>>,
    pub env_vars: Seq<(Seq<char>, Seq<char>)>,
    pub cwd: Seq<char>,
    pub stdin: Option<Seq<u8>>,
}

impl InvocationModel {
    /// The invocation that gives the child no standard input.
    pub open spec fn detached(
        executable: Seq<char>,
        arguments: Seq<Seq<char>>,
        env_vars: Seq<(Seq<char>, Seq<char>)>,
        cwd: Seq<char>,
    ) -> InvocationModel {
        InvocationModel { executable, arguments, env_vars, cwd, stdin: None }
    }
}

impl View for Invocation {
    type V = InvocationModel;

    open spec fn view(&self) -> InvocationModel {
        InvocationModel {
            executable: self.executable@,
            arguments: self.arguments.deep_view(),
            env_vars: self.env_vars.deep_view(),
            cwd: self.cwd@,
            stdin: self.stdin.deep_view(),
        }
    }
}

/// Why a request failed, as opposed to being routed past the cache.
#[derive(Clone, Copy, Debug, PartialEq, Eq, Structural)]
pub enum Failure {
    /// The request declares no destination for the object file.
    MissingRequiredOutput,
    /// The compiler could not be started.
    ProcessSpawnFailure,
}

/// Appends copies of the strings of `more` to `out`.
pub fn append_strings(out: &mut Vec<String>, more: &Vec<String>)
    ensures
        final(out).deep_view() == old(out).deep_view() + more.deep_view(),
{
    let ghost before = out.deep_view();
    let mut i: usize = 0;
    assert(before + more.deep_view().take(0) =~= before);
    while i < more.len()
        invariant
            i <= more.len(),
            out.deep_view() == before + more.deep_view().take(i as int),
        decreases more.len() - i,
    {
        let ghost so_far = out.deep_view();
        out.push(more[i].clone());
        assert(out.deep_view() =~= so_far.push(more[i as int]@));
        assert(more.deep_view().take(i + 1) =~= more.deep_view().take(i as int).push(more[i as int]@));
        i += 1;
    }
    assert(more.deep_view().take(more.len() as int) =~= more.deep_view());
}

/// A copy of a list of environment variables.
pub fn copy_env(env_vars: &Vec<(String, String)>) -> (copy: Vec<(String, String)>)
    ensures
        copy.deep_view() == env_vars.deep_view(),
{
    let mut copy: Vec<(String, String)> = Vec::new();
    let mut i: usize = 0;
    while i < env_vars.len()
        invariant
            i <= env_vars.len(),
            copy.len() == i,
            forall|j: int| 0 <= j < i ==> copy[j].deep_view() == env_vars[j].deep_view(),
        decreases env_vars.len() - i,
    {
        copy.push((env_vars[i].0.clone(), env_vars[i].1.clone()));
        i += 1;
    }
    assert(copy.deep_view() =~= env_vars.deep_view());
    copy
}

impl Invocation {
    /// The invocation of `executable` in `cwd` under exactly `env_vars`
    /// with the given arguments, and without standard input.
    pub fn detached(
        executable: &str,
        arguments: Vec<String>,
        cwd: &str,
        env_vars: &Vec<(String, String)>,
    ) -> (run: Invocation)
        ensures
            run@ == InvocationModel::detached(
                executable@,
                arguments.deep_view(),
                env_vars.deep_view(),
                cwd@,
            ),
    {
        Invocation {
            executable: String::from_str(executable),
            arguments,
            env_vars: copy_env(env_vars),
            cwd: String::from_str(cwd),
            stdin: None,
        }
    }

    /// The invocation of the preprocessing phase: the given leading
    /// arguments, then the preprocessor arguments of the request, then its
    /// common arguments.
    pub fn for_preprocessing(
        executable: &str,
        leading: Vec<String>,
        parsed_args: &ParsedArguments,
        cwd: &str,
        env_vars: &Vec<(String, String)>,
    ) -> (run: Invocation)
        ensures
            run@ == InvocationModel::detached(
                executable@,
                leading.deep_view() + parsed_args@.preprocessor_args + parsed_args@.common_args,
                env_vars.deep_view(),
                cwd@,
            ),
    {
        let mut arguments = leading;
        append_strings(&mut arguments, &parsed_args.preprocessor_args);
        append_strings(&mut arguments, &parsed_args.common_args);
        Invocation::detached(executable, arguments, cwd, env_vars)
    }

    /// The invocation of the compiling phase: the given leading arguments,
    /// then the common arguments of the request. The preprocessor arguments
    /// are for the preprocessing phase alone.
    pub fn for_compiling(
        executable: &str,
        leading: Vec<String>,
        parsed_args: &ParsedArguments,
        cwd: &str,
        env_vars: &Vec<(String, String)>,
    ) -> (run: Invocation)
        ensures
            run@ == InvocationModel::detached(
                executable@,
                leading.deep_view() + parsed_args@.common_args,
                env_vars.deep_view(),
                cwd@,
            ),
    {
        let mut arguments = leading;
        append_strings(&mut arguments, &parsed_args.common_args);
        Invocation::detached(executable, arguments, cwd, env_vars)
    }
}

/// The verdict on an outcome of parsing: a compilation can be cached when it
/// was recognized and declares where its object file goes.
pub open spec fn eligibility(outcome: CompilerArgumentsModel) -> Cacheable {
    match outcome {
        CompilerArgumentsModel::Recognized(parsed) => if parsed.outputs.dom().contains(OBJECT@) {
            Cacheable::Yes
        } else {
            Cacheable::No
        },
        _ => Cacheable::No,
    }
}

/// Decides whether the result of a compilation may be cached. The decision
/// rests on what was parsed alone: how the compiler exited is for the caller
/// to judge, and is not looked at.
pub fn cache_eligibility(parsed: &CompilerArguments, _compiled: &ProcessResult) -> (verdict: Cacheable)
    ensures
        verdict == eligibility(parsed@),
{
    match parsed {
        CompilerArguments::Recognized(parsed_args) => {
            if parsed_args.outputs.contains(OBJECT) {
                Cacheable::Yes
            } else {
                Cacheable::No
            }
        },
        _ => Cacheable::No,
    }
}

/// What every compiler family offers: its tag, the parsing of a command
/// line, and the invocations of the two phases. Whatever the family, the
/// preprocessing run gets the preprocessor and the common arguments of the
/// request, and the compiling run gets the common arguments and the path of
/// the object file; a family chooses only how each run is opened.
pub trait CCompilerImpl {
    /// The tag of the family.
    spec fn family(&self) -> CCompilerKind;

    /// The outcome of parsing a command line.
    spec fn parsed(&self, arguments: Seq<Seq<char>>) -> CompilerArgumentsModel;

    /// The arguments that open the preprocessing run: what asks the compiler
    /// for the preprocessed text of the input.
    spec fn preprocess_leading(&self, input: Seq<char>, language: Language) -> Seq<Seq<char>>;

    /// The arguments that open the compiling run: what asks the compiler to
    /// compile the input to `object`.
    spec fn compile_leading(&self, input: Seq<char>, language: Language, object: Seq<char>) -> Seq<
        Seq<char>,
    >;

    /// The tag of the family.
    fn kind(&self) -> (kind: CCompilerKind)
        ensures
            kind == self.family(),
    ;

    /// Parses a command line. The working directory has no bearing on the
    /// outcome: no file is read.
    fn parse_arguments(&self, arguments: &Vec<String>, cwd: &str) -> (outcome: CompilerArguments)
        ensures
            outcome@ == self.parsed(arguments.deep_view()),
    ;

    /// The invocation that preprocesses the input of the request, with the
    /// preprocessor and the common arguments, under exactly the given
    /// environment and without standard input.
    fn preprocess(
        &self,
        executable: &str,
        parsed_args: &ParsedArguments,
        cwd: &str,
        env_vars: &Vec<(String, String)>,
    ) -> (run: Invocation)
        ensures
            run@ == InvocationModel::detached(
                executable@,
                self.preprocess_leading(parsed_args@.input, parsed_args@.language)
                    + parsed_args@.preprocessor_args + parsed_args@.common_args,
                env_vars.deep_view(),
                cwd@,
            ),
    ;

    /// The invocation that compiles the input of the request to its declared
    /// object file, with the common arguments and the path of the object
    /// file, under exactly the given environment and without standard
    /// input, and the verdict on caching its result; a request without a
    /// declared object file fails, and nothing is to be run.
    fn compile(
        &self,
        executable: &str,
        parsed_args: &ParsedArguments,
        cwd: &str,
        env_vars: &Vec<(String, String)>,
    ) -> (planned: Result<(Cacheable, Invocation), Failure>)
        ensures
            match planned {
                Ok((verdict, run)) => {
                    &&& parsed_args@.outputs.dom().contains(OBJECT@)
                    &&& verdict == Cacheable::Yes
                    &&& run@ == InvocationModel::detached(
                        executable@,
                        self.compile_leading(
                            parsed_args@.input,
                            parsed_args@.language,
                            parsed_args@.outputs[OBJECT@],
                        ) + parsed_args@.common_args,
                        env_vars.deep_view(),
                        cwd@,
                    )
                },
                Err(failure) => {
                    &&& !parsed_args@.outputs.dom().contains(OBJECT@)
                    &&& failure == Failure::MissingRequiredOutput
                },
            },
    ;
}

/// The arguments with which a family runs the compiler to preprocess: its
/// opening, then the preprocessor arguments, then the common arguments.
pub open spec fn preprocess_arguments<C: CCompilerImpl>(compiler: &C, parsed_args: ParsedModel) -> Seq<
    Seq<char>,
> {
    compiler.preprocess_leading(parsed_args.input, parsed_args.language)
        + parsed_args.preprocessor_args + parsed_args.common_args
}

/// The arguments with which a family runs the compiler to compile to
/// `object`: its opening, which names the object file, then the common
/// arguments; none of the preprocessor arguments.
pub open spec fn compile_arguments<C: CCompilerImpl>(
    compiler: &C,
    parsed_args: ParsedModel,
    object: Seq<char>,
) -> Seq<Seq<char>> {
    compiler.compile_leading(parsed_args.input, parsed_args.language, object)
        + parsed_args.common_args
}

/// The compiling run gets the common arguments and the path of the object
/// file, and nothing of the preprocessor arguments: its arguments end with
/// the common arguments, and two requests that differ in their preprocessor
/// arguments alone are compiled with the same arguments.
pub proof fn lemma_compiling_takes_common_arguments<C: CCompilerImpl>(
    compiler: &C,
    parsed_args: ParsedModel,
    other: ParsedModel,
    object: Seq<char>,
)
    requires
        other.input == parsed_args.input,
        other.language == parsed_args.language,
        other.common_args == parsed_args.common_args,
    ensures
        compile_arguments(compiler, parsed_args, object) == compile_arguments(compiler, other, object),
        parsed_args.common_args.is_suffix_of(compile_arguments(compiler, parsed_args, object)),
{
    let leading = compiler.compile_leading(parsed_args.input, parsed_args.language, object);
    let whole = leading + parsed_args.common_args;
    assert(whole.subrange(whole.len() - parsed_args.common_args.len(), whole.len() as int)
        =~= parsed_args.common_args);
}

} // verus!
