//! The MSVC-style baseline: switches may begin with a slash as well as with
//! a dash, and values are mostly fused to them.

use vstd::prelude::*;
use vstd::string::*;
use crate::ambiguity::{
    agrees_from, clear_of, lemma_unambiguous_by_pairs, pairwise_clear, unambiguous,
};
use crate::args::{
    classification, classify, ArgumentDescriptor, ArgumentTable, Arity, Attribute, DescriptorModel,
};
use crate::compiler::{
    Cacheable, CompilerArguments, CompilerArgumentsModel, Failure, Invocation, InvocationModel,
    OBJECT, ParsedArguments, ParsedModel,
};
use crate::layers::{classifies_apart, classifies_fused, lemma_base_descriptor_classifies};
use crate::parse::{interpret, interpretation};
use crate::text::tail;

verus! {

/// The descriptors of the baseline, spelled with a dash. Switches that make
/// the compiler write files beside the object file, a program database
/// among them, are too hard, and so is any response file.
pub open spec fn table_model() -> Seq<DescriptorModel> {
    seq![
        DescriptorModel::take_arg("-D", Arity::Concatenated(None), Attribute::PreprocessorArgument),
        DescriptorModel::flag("-E", Attribute::TooHard),
        DescriptorModel::flag("-EP", Attribute::TooHard),
        DescriptorModel::take_arg("-FA", Arity::Concatenated(None), Attribute::TooHard),
        DescriptorModel::take_arg("-FI", Arity::EitherForm(None), Attribute::PreprocessorArgument),
        DescriptorModel::take_arg("-FR", Arity::Concatenated(None), Attribute::TooHard),
        DescriptorModel::take_arg("-Fa", Arity::Concatenated(None), Attribute::TooHard),
        DescriptorModel::take_arg("-Fd", Arity::Concatenated(None), Attribute::TooHard),
        DescriptorModel::take_arg("-Fe", Arity::Concatenated(None), Attribute::TooHard),
        DescriptorModel::take_arg("-Fi", Arity::Concatenated(None), Attribute::TooHard),
        DescriptorModel::take_arg("-Fm", Arity::Concatenated(None), Attribute::TooHard),
        DescriptorModel::take_arg("-Fo", Arity::Concatenated(None), Attribute::Output),
        DescriptorModel::take_arg("-Fp", Arity::Concatenated(None), Attribute::TooHard),
        DescriptorModel::take_arg("-Fr", Arity::Concatenated(None), Attribute::TooHard),
        DescriptorModel::flag("-Fx", Attribute::TooHard),
        DescriptorModel::take_arg("-I", Arity::EitherForm(None), Attribute::PreprocessorArgument),
        DescriptorModel::flag("-P", Attribute::TooHard),
        DescriptorModel::take_arg("-U", Arity::Concatenated(None), Attribute::PreprocessorArgument),
        DescriptorModel::flag("-ZI", Attribute::TooHard),
        DescriptorModel::flag("-Zi", Attribute::TooHard),
        DescriptorModel::flag("-c", Attribute::DoCompilation),
        DescriptorModel::take_arg("@", Arity::Concatenated(None), Attribute::TooHard),
    ]
}

/// The table of the baseline.
pub fn table() -> (table: ArgumentTable)
    ensures
        table@ == table_model(),
{
    let mut entries: Vec<ArgumentDescriptor> = Vec::new();
    entries.push(ArgumentDescriptor::take_arg("-D", Arity::Concatenated(None), Attribute::PreprocessorArgument));
    entries.push(ArgumentDescriptor::flag("-E", Attribute::TooHard));
    entries.push(ArgumentDescriptor::flag("-EP", Attribute::TooHard));
    entries.push(ArgumentDescriptor::take_arg("-FA", Arity::Concatenated(None), Attribute::TooHard));
    entries.push(ArgumentDescriptor::take_arg("-FI", Arity::EitherForm(None), Attribute::PreprocessorArgument));
    entries.push(ArgumentDescriptor::take_arg("-FR", Arity::Concatenated(None), Attribute::TooHard));
    entries.push(ArgumentDescriptor::take_arg("-Fa", Arity::Concatenated(None), Attribute::TooHard));
    entries.push(ArgumentDescriptor::take_arg("-Fd", Arity::Concatenated(None), Attribute::TooHard));
    entries.push(ArgumentDescriptor::take_arg("-Fe", Arity::Concatenated(None), Attribute::TooHard));
    entries.push(ArgumentDescriptor::take_arg("-Fi", Arity::Concatenated(None), Attribute::TooHard));
    entries.push(ArgumentDescriptor::take_arg("-Fm", Arity::Concatenated(None), Attribute::TooHard));
    entries.push(ArgumentDescriptor::take_arg("-Fo", Arity::Concatenated(None), Attribute::Output));
    entries.push(ArgumentDescriptor::take_arg("-Fp", Arity::Concatenated(None), Attribute::TooHard));
    entries.push(ArgumentDescriptor::take_arg("-Fr", Arity::Concatenated(None), Attribute::TooHard));
    entries.push(ArgumentDescriptor::flag("-Fx", Attribute::TooHard));
    entries.push(ArgumentDescriptor::take_arg("-I", Arity::EitherForm(None), Attribute::PreprocessorArgument));
    entries.push(ArgumentDescriptor::flag("-P", Attribute::TooHard));
    entries.push(ArgumentDescriptor::take_arg("-U", Arity::Concatenated(None), Attribute::PreprocessorArgument));
    entries.push(ArgumentDescriptor::flag("-ZI", Attribute::TooHard));
    entries.push(ArgumentDescriptor::flag("-Zi", Attribute::TooHard));
    entries.push(ArgumentDescriptor::flag("-c", Attribute::DoCompilation));
    entries.push(ArgumentDescriptor::take_arg("@", Arity::Concatenated(None), Attribute::TooHard));
    assert(entries.deep_view() =~= table_model());
    ArgumentTable::new(entries)
}

/// A token with a leading slash rewritten to a dash, so that both styles of
/// switch are looked up under one spelling.
pub open spec fn dashed(token: Seq<char>) -> Seq<char> {
    if token.len() > 0 && token[0] == '/' {
        seq!['-'] + token.skip(1)
    } else {
        token
    }
}

/// The tokens of a command line, each with a leading slash rewritten.
pub open spec fn all_dashed(arguments: Seq<Seq<char>>) -> Seq<Seq<char>> {
    Seq::new(arguments.len(), |i: int| dashed(arguments[i]))
}

/// A token with a leading slash rewritten to a dash.
pub fn with_dash(token: &str) -> (r: String)
    ensures
        r@ == dashed(token@),
{
    if token.unicode_len() > 0 && token.get_char(0) == '/' {
        let rest = tail(token, 1);
        proof {
            reveal_strlit("-");
            assert("-"@ =~= seq!['-']);
        }
        String::from_str("-").concat(rest.as_str())
    } else {
        String::from_str(token)
    }
}

/// The outcome of parsing a command line in the MSVC style against a table.
pub open spec fn parsed(table: Seq<DescriptorModel>, arguments: Seq<Seq<char>>) -> CompilerArgumentsModel {
    interpretation(classification(Seq::empty(), table, all_dashed(arguments)))
}

/// Parses a command line in the MSVC style against a table.
pub fn parse_arguments(arguments: &Vec<String>, table: &ArgumentTable) -> (outcome: CompilerArguments)
    ensures
        outcome@ == parsed(table@, arguments.deep_view()),
{
    let mut tokens: Vec<String> = Vec::new();
    let mut i: usize = 0;
    while i < arguments.len()
        invariant
            i <= arguments.len(),
            tokens.len() == i,
            forall|j: int| 0 <= j < i ==> tokens[j]@ == dashed(arguments[j]@),
        decreases arguments.len() - i,
    {
        tokens.push(with_dash(arguments[i].as_str()));
        i += 1;
    }
    assert(tokens.deep_view() =~= all_dashed(arguments.deep_view()));
    let nothing = ArgumentTable::empty();
    let items = classify(&nothing, table, &tokens);
    interpret(&items)
}

/// The arguments that open the preprocessing run.
pub open spec fn preprocess_leading(input: Seq<char>) -> Seq<Seq<char>> {
    seq!["-E"@, input, "-nologo"@]
}

/// The arguments of the preprocessing run: its opening, then the
/// preprocessor arguments, then the common arguments.
pub open spec fn preprocess_arguments(parsed_args: ParsedModel) -> Seq<Seq<char>> {
    preprocess_leading(parsed_args.input) + parsed_args.preprocessor_args + parsed_args.common_args
}

/// The invocation that preprocesses the input of the request.
pub fn preprocess(
    executable: &str,
    parsed_args: &ParsedArguments,
    cwd: &str,
    env_vars: &Vec<(String, String)>,
) -> (run: Invocation)
    ensures
        run@ == InvocationModel::detached(
            executable@,
            preprocess_arguments(parsed_args@),
            env_vars.deep_view(),
            cwd@,
        ),
{
    let mut leading: Vec<String> = Vec::new();
    leading.push(String::from_str("-E"));
    leading.push(parsed_args.input.clone());
    leading.push(String::from_str("-nologo"));
    assert(leading.deep_view() =~= seq!["-E"@, parsed_args@.input, "-nologo"@]);
    Invocation::for_preprocessing(executable, leading, parsed_args, cwd, env_vars)
}

/// The arguments that open the compiling run: the object file is named by
/// a switch to which its path is fused.
pub open spec fn compile_leading(input: Seq<char>, object: Seq<char>) -> Seq<Seq<char>> {
    seq!["-c"@, input, "-Fo"@ + object]
}

/// The arguments of the compiling run: its opening, which names the object
/// file, then the common arguments; none of the preprocessor arguments.
pub open spec fn compile_arguments(parsed_args: ParsedModel, object: Seq<char>) -> Seq<Seq<char>> {
    compile_leading(parsed_args.input, object) + parsed_args.common_args
}

/// The invocation that compiles the input of the request to its declared
/// object file; a request without one fails.
pub fn compile(
    executable: &str,
    parsed_args: &ParsedArguments,
    cwd: &str,
    env_vars: &Vec<(String, String)>,
) -> (planned: Result<(Cacheable, Invocation), Failure>)
    ensures
        match planned {
            Ok((verdict, run)) => {
                &&& parsed_args@.outputs.dom().contains(OBJECT@)
                &&& verdict == Cacheable::Yes
                &&& run@ == InvocationModel::detached(
                    executable@,
                    compile_arguments(parsed_args@, parsed_args@.outputs[OBJECT@]),
                    env_vars.deep_view(),
                    cwd@,
                )
            },
            Err(failure) => {
                &&& !parsed_args@.outputs.dom().contains(OBJECT@)
                &&& failure == Failure::MissingRequiredOutput
            },
        },
{
    let object = match parsed_args.outputs.get(OBJECT) {
        Some(object) => object,
        None => {
            return Err(Failure::MissingRequiredOutput);
        },
    };
    let mut leading: Vec<String> = Vec::new();
    leading.push(String::from_str("-c"));
    leading.push(parsed_args.input.clone());
    leading.push(String::from_str("-Fo").concat(object.as_str()));
    assert(leading.deep_view() =~= seq!["-c"@, parsed_args@.input, "-Fo"@ + object@]);
    Ok((Cacheable::Yes, Invocation::for_compiling(executable, leading, parsed_args, cwd, env_vars)))
}

/// No token is matched by two descriptors of the table.
pub proof fn lemma_table_unambiguous()
    ensures
        unambiguous(table_model()),
{
    reveal_strlit("-D");
    reveal_strlit("-E");
    reveal_strlit("-EP");
    reveal_strlit("-FA");
    reveal_strlit("-FI");
    reveal_strlit("-FR");
    reveal_strlit("-Fa");
    reveal_strlit("-Fd");
    reveal_strlit("-Fe");
    reveal_strlit("-Fi");
    reveal_strlit("-Fm");
    reveal_strlit("-Fo");
    reveal_strlit("-Fp");
    reveal_strlit("-Fr");
    reveal_strlit("-Fx");
    reveal_strlit("-I");
    reveal_strlit("-P");
    reveal_strlit("-U");
    reveal_strlit("-ZI");
    reveal_strlit("-Zi");
    reveal_strlit("-c");
    reveal_strlit("@");
    reveal_with_fuel(agrees_from, 24);
    reveal_with_fuel(clear_of, 23);
    reveal_with_fuel(pairwise_clear, 23);
    assert(table_model().len() == 22);
    lemma_unambiguous_by_pairs(table_model());
}

/// Every switch of the baseline is classified as the baseline declares
/// it, in each shape that it declares.
pub proof fn lemma_descriptor_classifies(i: int, value: Seq<char>)
    requires
        0 <= i < table_model().len(),
    ensures
        classifies_apart(Seq::empty(), table_model(), table_model()[i], value),
        classifies_fused(Seq::empty(), table_model(), table_model()[i], value),
{
    lemma_table_unambiguous();
    lemma_base_descriptor_classifies(Seq::empty(), table_model(), i, value);
}

/// A switch means the same with a slash as with a dash: the command line
/// is parsed as the one in which every leading slash is a dash.
pub proof fn lemma_slash_is_dash(table: Seq<DescriptorModel>, arguments: Seq<Seq<char>>)
    ensures
        parsed(table, arguments) == parsed(table, all_dashed(arguments)),
{
    assert(all_dashed(all_dashed(arguments)) =~= all_dashed(arguments));
}

} // verus!
