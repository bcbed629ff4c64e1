//! The GNU-style baseline: the flags that compilers in the tradition of gcc
//! share, and the two-phase protocol by which they are driven. Families that
//! follow this style add a table of their own on top of this one.

use vstd::prelude::*;
use vstd::string::*;
use crate::ambiguity::{
    agrees_from, clear_of, lemma_unambiguous_by_pairs, pairwise_clear, unambiguous,
};
use crate::args::{
    classification, classify, ArgumentDescriptor, ArgumentTable, Arity, Attribute, DescriptorModel,
};
use crate::compiler::{
    Cacheable, CompilerArguments, CompilerArgumentsModel, Failure, Invocation, InvocationModel,
    Language, OBJECT, ParsedArguments, ParsedModel,
};
use crate::layers::{
    classifies_apart, classifies_fused, knows, lemma_base_descriptor_classifies,
    lemma_derived_reproduces_base,
};
use crate::parse::{interpret, interpretation};

verus! {

/// The descriptors of the baseline. Flags that make the compiler write
/// files beside the object file, or no object file at all, are too hard;
/// response files are never read, so any of them is too hard as well.
pub open spec fn table_model() -> Seq<DescriptorModel> {
    seq![
        DescriptorModel::flag("-", Attribute::TooHard),
        DescriptorModel::flag("--coverage", Attribute::TooHard),
        DescriptorModel::take_arg("--param", Arity::Separated, Attribute::PassThrough),
        DescriptorModel::flag("--save-temps", Attribute::TooHard),
        DescriptorModel::take_arg("--serialize-diagnostics", Arity::Separated, Attribute::PassThrough),
        DescriptorModel::take_arg("--sysroot", Arity::Separated, Attribute::PassThrough),
        DescriptorModel::take_arg("-A", Arity::Separated, Attribute::PassThrough),
        DescriptorModel::take_arg("-B", Arity::EitherForm(None), Attribute::PassThrough),
        DescriptorModel::take_arg("-D", Arity::EitherForm(None), Attribute::PreprocessorArgument),
        DescriptorModel::flag("-E", Attribute::TooHard),
        DescriptorModel::take_arg("-F", Arity::EitherForm(None), Attribute::PreprocessorArgument),
        DescriptorModel::take_arg("-G", Arity::Separated, Attribute::PassThrough),
        DescriptorModel::take_arg("-I", Arity::EitherForm(None), Attribute::PreprocessorArgument),
        DescriptorModel::take_arg("-L", Arity::Separated, Attribute::PassThrough),
        DescriptorModel::flag("-M", Attribute::TooHard),
        DescriptorModel::flag("-MD", Attribute::PreprocessorArgument),
        DescriptorModel::take_arg("-MF", Arity::Separated, Attribute::PreprocessorArgument),
        DescriptorModel::flag("-MM", Attribute::TooHard),
        DescriptorModel::flag("-MMD", Attribute::PreprocessorArgument),
        DescriptorModel::flag("-MP", Attribute::PreprocessorArgument),
        DescriptorModel::take_arg("-MQ", Arity::Separated, Attribute::PreprocessorArgument),
        DescriptorModel::take_arg("-MT", Arity::Separated, Attribute::PreprocessorArgument),
        DescriptorModel::flag("-P", Attribute::TooHard),
        DescriptorModel::take_arg("-U", Arity::EitherForm(None), Attribute::PreprocessorArgument),
        DescriptorModel::take_arg("-V", Arity::Separated, Attribute::PassThrough),
        DescriptorModel::take_arg("-Xassembler", Arity::Separated, Attribute::PassThrough),
        DescriptorModel::take_arg("-Xlinker", Arity::Separated, Attribute::PassThrough),
        DescriptorModel::take_arg("-Xpreprocessor", Arity::Separated, Attribute::PreprocessorArgument),
        DescriptorModel::take_arg("-arch", Arity::Separated, Attribute::PassThrough),
        DescriptorModel::take_arg("-aux-info", Arity::Separated, Attribute::PassThrough),
        DescriptorModel::take_arg("-b", Arity::Separated, Attribute::PassThrough),
        DescriptorModel::flag("-c", Attribute::DoCompilation),
        DescriptorModel::flag("-fno-working-directory", Attribute::PreprocessorArgument),
        DescriptorModel::flag("-fplugin=libcc1plugin", Attribute::TooHard),
        DescriptorModel::flag("-fprofile-arcs", Attribute::TooHard),
        DescriptorModel::flag("-fprofile-generate", Attribute::TooHard),
        DescriptorModel::flag("-fprofile-use", Attribute::TooHard),
        DescriptorModel::flag("-frepo", Attribute::TooHard),
        DescriptorModel::flag("-fsyntax-only", Attribute::TooHard),
        DescriptorModel::flag("-ftest-coverage", Attribute::TooHard),
        DescriptorModel::flag("-fworking-directory", Attribute::PreprocessorArgument),
        DescriptorModel::flag("-gsplit-dwarf", Attribute::TooHard),
        DescriptorModel::take_arg("-idirafter", Arity::EitherForm(None), Attribute::PreprocessorArgument),
        DescriptorModel::take_arg("-iframework", Arity::EitherForm(None), Attribute::PreprocessorArgument),
        DescriptorModel::take_arg("-imacros", Arity::EitherForm(None), Attribute::PreprocessorArgument),
        DescriptorModel::take_arg("-imultilib", Arity::EitherForm(None), Attribute::PreprocessorArgument),
        DescriptorModel::take_arg("-include", Arity::EitherForm(None), Attribute::PreprocessorArgument),
        DescriptorModel::take_arg("-install_name", Arity::Separated, Attribute::PassThrough),
        DescriptorModel::take_arg("-iprefix", Arity::EitherForm(None), Attribute::PreprocessorArgument),
        DescriptorModel::take_arg("-iquote", Arity::EitherForm(None), Attribute::PreprocessorArgument),
        DescriptorModel::take_arg("-isysroot", Arity::EitherForm(None), Attribute::PreprocessorArgument),
        DescriptorModel::take_arg("-isystem", Arity::EitherForm(None), Attribute::PreprocessorArgument),
        DescriptorModel::take_arg("-iwithprefix", Arity::Separated, Attribute::PreprocessorArgument),
        DescriptorModel::take_arg("-iwithprefixbefore", Arity::Separated, Attribute::PreprocessorArgument),
        DescriptorModel::flag("-nostdinc", Attribute::PreprocessorArgument),
        DescriptorModel::flag("-nostdinc++", Attribute::PreprocessorArgument),
        DescriptorModel::take_arg("-o", Arity::EitherForm(None), Attribute::Output),
        DescriptorModel::flag("-remap", Attribute::PreprocessorArgument),
        DescriptorModel::flag("-save-temps", Attribute::TooHard),
        DescriptorModel::take_arg("-stdlib", Arity::Concatenated(Some('=')), Attribute::PreprocessorArgument),
        DescriptorModel::take_arg("-u", Arity::EitherForm(None), Attribute::PassThrough),
        DescriptorModel::take_arg("-x", Arity::EitherForm(None), Attribute::Language),
        DescriptorModel::take_arg("@", Arity::Concatenated(None), Attribute::TooHard),
    ]
}

/// The table of the baseline.
pub fn table() -> (table: ArgumentTable)
    ensures
        table@ == table_model(),
{
    let mut entries: Vec<ArgumentDescriptor> = Vec::new();
    entries.push(ArgumentDescriptor::flag("-", Attribute::TooHard));
    entries.push(ArgumentDescriptor::flag("--coverage", Attribute::TooHard));
    entries.push(ArgumentDescriptor::take_arg("--param", Arity::Separated, Attribute::PassThrough));
    entries.push(ArgumentDescriptor::flag("--save-temps", Attribute::TooHard));
    entries.push(ArgumentDescriptor::take_arg("--serialize-diagnostics", Arity::Separated, Attribute::PassThrough));
    entries.push(ArgumentDescriptor::take_arg("--sysroot", Arity::Separated, Attribute::PassThrough));
    entries.push(ArgumentDescriptor::take_arg("-A", Arity::Separated, Attribute::PassThrough));
    entries.push(ArgumentDescriptor::take_arg("-B", Arity::EitherForm(None), Attribute::PassThrough));
    entries.push(ArgumentDescriptor::take_arg("-D", Arity::EitherForm(None), Attribute::PreprocessorArgument));
    entries.push(ArgumentDescriptor::flag("-E", Attribute::TooHard));
    entries.push(ArgumentDescriptor::take_arg("-F", Arity::EitherForm(None), Attribute::PreprocessorArgument));
    entries.push(ArgumentDescriptor::take_arg("-G", Arity::Separated, Attribute::PassThrough));
    entries.push(ArgumentDescriptor::take_arg("-I", Arity::EitherForm(None), Attribute::PreprocessorArgument));
    entries.push(ArgumentDescriptor::take_arg("-L", Arity::Separated, Attribute::PassThrough));
    entries.push(ArgumentDescriptor::flag("-M", Attribute::TooHard));
    entries.push(ArgumentDescriptor::flag("-MD", Attribute::PreprocessorArgument));
    entries.push(ArgumentDescriptor::take_arg("-MF", Arity::Separated, Attribute::PreprocessorArgument));
    entries.push(ArgumentDescriptor::flag("-MM", Attribute::TooHard));
    entries.push(ArgumentDescriptor::flag("-MMD", Attribute::PreprocessorArgument));
    entries.push(ArgumentDescriptor::flag("-MP", Attribute::PreprocessorArgument));
    entries.push(ArgumentDescriptor::take_arg("-MQ", Arity::Separated, Attribute::PreprocessorArgument));
    entries.push(ArgumentDescriptor::take_arg("-MT", Arity::Separated, Attribute::PreprocessorArgument));
    entries.push(ArgumentDescriptor::flag("-P", Attribute::TooHard));
    entries.push(ArgumentDescriptor::take_arg("-U", Arity::EitherForm(None), Attribute::PreprocessorArgument));
    entries.push(ArgumentDescriptor::take_arg("-V", Arity::Separated, Attribute::PassThrough));
    entries.push(ArgumentDescriptor::take_arg("-Xassembler", Arity::Separated, Attribute::PassThrough));
    entries.push(ArgumentDescriptor::take_arg("-Xlinker", Arity::Separated, Attribute::PassThrough));
    entries.push(ArgumentDescriptor::take_arg("-Xpreprocessor", Arity::Separated, Attribute::PreprocessorArgument));
    entries.push(ArgumentDescriptor::take_arg("-arch", Arity::Separated, Attribute::PassThrough));
    entries.push(ArgumentDescriptor::take_arg("-aux-info", Arity::Separated, Attribute::PassThrough));
    entries.push(ArgumentDescriptor::take_arg("-b", Arity::Separated, Attribute::PassThrough));
    entries.push(ArgumentDescriptor::flag("-c", Attribute::DoCompilation));
    entries.push(ArgumentDescriptor::flag("-fno-working-directory", Attribute::PreprocessorArgument));
    entries.push(ArgumentDescriptor::flag("-fplugin=libcc1plugin", Attribute::TooHard));
    entries.push(ArgumentDescriptor::flag("-fprofile-arcs", Attribute::TooHard));
    entries.push(ArgumentDescriptor::flag("-fprofile-generate", Attribute::TooHard));
    entries.push(ArgumentDescriptor::flag("-fprofile-use", Attribute::TooHard));
    entries.push(ArgumentDescriptor::flag("-frepo", Attribute::TooHard));
    entries.push(ArgumentDescriptor::flag("-fsyntax-only", Attribute::TooHard));
    entries.push(ArgumentDescriptor::flag("-ftest-coverage", Attribute::TooHard));
    entries.push(ArgumentDescriptor::flag("-fworking-directory", Attribute::PreprocessorArgument));
    entries.push(ArgumentDescriptor::flag("-gsplit-dwarf", Attribute::TooHard));
    entries.push(ArgumentDescriptor::take_arg("-idirafter", Arity::EitherForm(None), Attribute::PreprocessorArgument));
    entries.push(ArgumentDescriptor::take_arg("-iframework", Arity::EitherForm(None), Attribute::PreprocessorArgument));
    entries.push(ArgumentDescriptor::take_arg("-imacros", Arity::EitherForm(None), Attribute::PreprocessorArgument));
    entries.push(ArgumentDescriptor::take_arg("-imultilib", Arity::EitherForm(None), Attribute::PreprocessorArgument));
    entries.push(ArgumentDescriptor::take_arg("-include", Arity::EitherForm(None), Attribute::PreprocessorArgument));
    entries.push(ArgumentDescriptor::take_arg("-install_name", Arity::Separated, Attribute::PassThrough));
    entries.push(ArgumentDescriptor::take_arg("-iprefix", Arity::EitherForm(None), Attribute::PreprocessorArgument));
    entries.push(ArgumentDescriptor::take_arg("-iquote", Arity::EitherForm(None), Attribute::PreprocessorArgument));
    entries.push(ArgumentDescriptor::take_arg("-isysroot", Arity::EitherForm(None), Attribute::PreprocessorArgument));
    entries.push(ArgumentDescriptor::take_arg("-isystem", Arity::EitherForm(None), Attribute::PreprocessorArgument));
    entries.push(ArgumentDescriptor::take_arg("-iwithprefix", Arity::Separated, Attribute::PreprocessorArgument));
    entries.push(ArgumentDescriptor::take_arg("-iwithprefixbefore", Arity::Separated, Attribute::PreprocessorArgument));
    entries.push(ArgumentDescriptor::flag("-nostdinc", Attribute::PreprocessorArgument));
    entries.push(ArgumentDescriptor::flag("-nostdinc++", Attribute::PreprocessorArgument));
    entries.push(ArgumentDescriptor::take_arg("-o", Arity::EitherForm(None), Attribute::Output));
    entries.push(ArgumentDescriptor::flag("-remap", Attribute::PreprocessorArgument));
    entries.push(ArgumentDescriptor::flag("-save-temps", Attribute::TooHard));
    entries.push(ArgumentDescriptor::take_arg("-stdlib", Arity::Concatenated(Some('=')), Attribute::PreprocessorArgument));
    entries.push(ArgumentDescriptor::take_arg("-u", Arity::EitherForm(None), Attribute::PassThrough));
    entries.push(ArgumentDescriptor::take_arg("-x", Arity::EitherForm(None), Attribute::Language));
    entries.push(ArgumentDescriptor::take_arg("@", Arity::Concatenated(None), Attribute::TooHard));
    assert(entries.deep_view() =~= table_model());
    ArgumentTable::new(entries)
}

/// The outcome of parsing a command line in the GNU style, with the table of
/// a family laid over the baseline.
pub open spec fn parsed(extension: Seq<DescriptorModel>, arguments: Seq<Seq<char>>) -> CompilerArgumentsModel {
    interpretation(classification(extension, table_model(), arguments))
}

/// Parses a command line in the GNU style, with the table of a family laid
/// over the baseline.
pub fn parse_arguments(arguments: &Vec<String>, extension: &ArgumentTable) -> (outcome:
    CompilerArguments)
    ensures
        outcome@ == parsed(extension@, arguments.deep_view()),
{
    let base = table();
    let items = classify(extension, &base, arguments);
    interpret(&items)
}

/// The arguments that open the preprocessing run: the language is given
/// explicitly, since it may have come from the command line.
pub open spec fn preprocess_leading(input: Seq<char>, language: Language) -> Seq<Seq<char>> {
    seq!["-x"@, language.name(), "-E"@, input]
}

/// The arguments of the preprocessing run: its opening, then the
/// preprocessor arguments, then the common arguments.
pub open spec fn preprocess_arguments(parsed_args: ParsedModel) -> Seq<Seq<char>> {
    preprocess_leading(parsed_args.input, parsed_args.language) + parsed_args.preprocessor_args
        + parsed_args.common_args
}

/// The invocation that preprocesses the input of the request.
pub fn preprocess(
    executable: &str,
    parsed_args: &ParsedArguments,
    cwd: &str,
    env_vars: &Vec<(String, String)>,
) -> (run: Invocation)
    ensures
        run@ == InvocationModel::detached(
            executable@,
            preprocess_arguments(parsed_args@),
            env_vars.deep_view(),
            cwd@,
        ),
{
    let mut leading: Vec<String> = Vec::new();
    leading.push(String::from_str("-x"));
    leading.push(String::from_str(parsed_args.language.as_str()));
    leading.push(String::from_str("-E"));
    leading.push(parsed_args.input.clone());
    assert(leading.deep_view() =~= seq!["-x"@, parsed_args@.language.name(), "-E"@, parsed_args@.input]);
    Invocation::for_preprocessing(executable, leading, parsed_args, cwd, env_vars)
}

/// The arguments that open the compiling run.
pub open spec fn compile_leading(input: Seq<char>, language: Language, object: Seq<char>) -> Seq<
    Seq<char>,
> {
    seq!["-c"@, "-x"@, language.name(), input, "-o"@, object]
}

/// The arguments of the compiling run: its opening, which names the object
/// file, then the common arguments; none of the preprocessor arguments.
pub open spec fn compile_arguments(parsed_args: ParsedModel, object: Seq<char>) -> Seq<Seq<char>> {
    compile_leading(parsed_args.input, parsed_args.language, object) + parsed_args.common_args
}

/// The invocation that compiles the input of the request to its declared
/// object file; a request without one fails.
pub fn compile(
    executable: &str,
    parsed_args: &ParsedArguments,
    cwd: &str,
    env_vars: &Vec<(String, String)>,
) -> (planned: Result<(Cacheable, Invocation), Failure>)
    ensures
        match planned {
            Ok((verdict, run)) => {
                &&& parsed_args@.outputs.dom().contains(OBJECT@)
                &&& verdict == Cacheable::Yes
                &&& run@ == InvocationModel::detached(
                    executable@,
                    compile_arguments(parsed_args@, parsed_args@.outputs[OBJECT@]),
                    env_vars.deep_view(),
                    cwd@,
                )
            },
            Err(failure) => {
                &&& !parsed_args@.outputs.dom().contains(OBJECT@)
                &&& failure == Failure::MissingRequiredOutput
            },
        },
{
    let object = match parsed_args.outputs.get(OBJECT) {
        Some(object) => object,
        None => {
            return Err(Failure::MissingRequiredOutput);
        },
    };
    let mut leading: Vec<String> = Vec::new();
    leading.push(String::from_str("-c"));
    leading.push(String::from_str("-x"));
    leading.push(String::from_str(parsed_args.language.as_str()));
    leading.push(parsed_args.input.clone());
    leading.push(String::from_str("-o"));
    leading.push(object.clone());
    assert(leading.deep_view() =~= seq![
        "-c"@,
        "-x"@,
        parsed_args@.language.name(),
        parsed_args@.input,
        "-o"@,
        object@,
    ]);
    Ok((Cacheable::Yes, Invocation::for_compiling(executable, leading, parsed_args, cwd, env_vars)))
}

/// No token is matched by two descriptors of the table.
pub proof fn lemma_table_unambiguous()
    ensures
        unambiguous(table_model()),
{
    reveal_strlit("-");
    reveal_strlit("--coverage");
    reveal_strlit("--param");
    reveal_strlit("--save-temps");
    reveal_strlit("--serialize-diagnostics");
    reveal_strlit("--sysroot");
    reveal_strlit("-A");
    reveal_strlit("-B");
    reveal_strlit("-D");
    reveal_strlit("-E");
    reveal_strlit("-F");
    reveal_strlit("-G");
    reveal_strlit("-I");
    reveal_strlit("-L");
    reveal_strlit("-M");
    reveal_strlit("-MD");
    reveal_strlit("-MF");
    reveal_strlit("-MM");
    reveal_strlit("-MMD");
    reveal_strlit("-MP");
    reveal_strlit("-MQ");
    reveal_strlit("-MT");
    reveal_strlit("-P");
    reveal_strlit("-U");
    reveal_strlit("-V");
    reveal_strlit("-Xassembler");
    reveal_strlit("-Xlinker");
    reveal_strlit("-Xpreprocessor");
    reveal_strlit("-arch");
    reveal_strlit("-aux-info");
    reveal_strlit("-b");
    reveal_strlit("-c");
    reveal_strlit("-fno-working-directory");
    reveal_strlit("-fplugin=libcc1plugin");
    reveal_strlit("-fprofile-arcs");
    reveal_strlit("-fprofile-generate");
    reveal_strlit("-fprofile-use");
    reveal_strlit("-frepo");
    reveal_strlit("-fsyntax-only");
    reveal_strlit("-ftest-coverage");
    reveal_strlit("-fworking-directory");
    reveal_strlit("-gsplit-dwarf");
    reveal_strlit("-idirafter");
    reveal_strlit("-iframework");
    reveal_strlit("-imacros");
    reveal_strlit("-imultilib");
    reveal_strlit("-include");
    reveal_strlit("-install_name");
    reveal_strlit("-iprefix");
    reveal_strlit("-iquote");
    reveal_strlit("-isysroot");
    reveal_strlit("-isystem");
    reveal_strlit("-iwithprefix");
    reveal_strlit("-iwithprefixbefore");
    reveal_strlit("-nostdinc");
    reveal_strlit("-nostdinc++");
    reveal_strlit("-o");
    reveal_strlit("-remap");
    reveal_strlit("-save-temps");
    reveal_strlit("-stdlib");
    reveal_strlit("-u");
    reveal_strlit("-x");
    reveal_strlit("@");
    reveal_with_fuel(agrees_from, 24);
    reveal_with_fuel(clear_of, 64);
    reveal_with_fuel(pairwise_clear, 64);
    assert(table_model().len() == 63);
    lemma_unambiguous_by_pairs(table_model());
}

/// Every flag of the baseline is classified as the baseline declares it
/// by every family that does not know the flag itself.
pub proof fn lemma_baseline_descriptor_classifies(
    extension: Seq<DescriptorModel>,
    i: int,
    value: Seq<char>,
)
    requires
        0 <= i < table_model().len(),
    ensures
        !knows(extension, table_model()[i].flag) ==> classifies_apart(
            extension,
            table_model(),
            table_model()[i],
            value,
        ),
        !knows(extension, table_model()[i].fused(value)) ==> classifies_fused(
            extension,
            table_model(),
            table_model()[i],
            value,
        ),
{
    lemma_table_unambiguous();
    lemma_base_descriptor_classifies(extension, table_model(), i, value);
}

/// A family that knows no token of a command line parses it as the
/// baseline alone does.
pub proof fn lemma_family_reproduces_baseline(extension: Seq<DescriptorModel>, arguments: Seq<Seq<char>>)
    requires
        forall|k: int| 0 <= k < arguments.len() ==> !knows(extension, #[trigger] arguments[k]),
    ensures
        parsed(extension, arguments) == parsed(Seq::empty(), arguments),
{
    lemma_derived_reproduces_base(extension, table_model(), arguments);
}

} // verus!
