//! Clang compiling HIP sources: the GNU style with flags of its own.

use vstd::prelude::*;
use crate::ambiguity::{
    agrees_from, clear_of, lemma_unambiguous_by_pairs, pairwise_clear, unambiguous,
};
use crate::args::{ArgumentDescriptor, ArgumentTable, Arity, Attribute, DescriptorModel};
use crate::compiler::{
    CCompilerImpl, CCompilerKind, Cacheable, CompilerArguments, CompilerArgumentsModel, Failure,
    Invocation, Language, ParsedArguments, RejectionModel,
};
use crate::gcc;
use crate::layers::{
    begins_argument, classifies_apart, classifies_fused, lemma_extension_descriptor_classifies,
    lemma_find_own,
};
use crate::parse::lemma_too_hard_anywhere;

verus! {

/// The compiler family of clang for HIP.
#[derive(Clone, Debug)]
pub struct ClangHIP;

impl CCompilerImpl for ClangHIP {
    open spec fn family(&self) -> CCompilerKind {
        CCompilerKind::ClangHIP
    }

    open spec fn parsed(&self, arguments: Seq<Seq<char>>) -> CompilerArgumentsModel {
        gcc::parsed(table_model(), arguments)
    }

    open spec fn preprocess_leading(&self, input: Seq<char>, language: Language) -> Seq<Seq<char>> {
        gcc::preprocess_leading(input, language)
    }

    open spec fn compile_leading(&self, input: Seq<char>, language: Language, object: Seq<char>) -> Seq<
        Seq<char>,
    > {
        gcc::compile_leading(input, language, object)
    }

    fn kind(&self) -> (kind: CCompilerKind) {
        CCompilerKind::ClangHIP
    }

    fn parse_arguments(&self, arguments: &Vec<String>, _cwd: &str) -> (outcome: CompilerArguments) {
        gcc::parse_arguments(arguments, &table())
    }

    fn preprocess(
        &self,
        executable: &str,
        parsed_args: &ParsedArguments,
        cwd: &str,
        env_vars: &Vec<(String, String)>,
    ) -> (run: Invocation) {
        gcc::preprocess(executable, parsed_args, cwd, env_vars)
    }

    fn compile(
        &self,
        executable: &str,
        parsed_args: &ParsedArguments,
        cwd: &str,
        env_vars: &Vec<(String, String)>,
    ) -> (planned: Result<(Cacheable, Invocation), Failure>) {
        gcc::compile(executable, parsed_args, cwd, env_vars)
    }
}

/// The flags that clang adds to the baseline. Modules cannot be cached.
pub open spec fn table_model() -> Seq<DescriptorModel> {
    seq![
        DescriptorModel::take_arg("--serialize-diagnostics", Arity::Separated, Attribute::PassThrough),
        DescriptorModel::take_arg("--target", Arity::Separated, Attribute::PassThrough),
        DescriptorModel::take_arg("-Xclang", Arity::Separated, Attribute::PassThrough),
        DescriptorModel::flag("-fcxx-modules", Attribute::TooHard),
        DescriptorModel::flag("-fmodules", Attribute::TooHard),
        DescriptorModel::take_arg("-gcc-toolchain", Arity::Separated, Attribute::PassThrough),
        DescriptorModel::take_arg("-include-pch", Arity::EitherForm(None), Attribute::PreprocessorArgument),
        DescriptorModel::take_arg("-target", Arity::Separated, Attribute::PassThrough),
    ]
}

/// The table that clang lays over the baseline.
pub fn table() -> (table: ArgumentTable)
    ensures
        table@ == table_model(),
{
    let mut entries: Vec<ArgumentDescriptor> = Vec::new();
    entries.push(ArgumentDescriptor::take_arg("--serialize-diagnostics", Arity::Separated, Attribute::PassThrough));
    entries.push(ArgumentDescriptor::take_arg("--target", Arity::Separated, Attribute::PassThrough));
    entries.push(ArgumentDescriptor::take_arg("-Xclang", Arity::Separated, Attribute::PassThrough));
    entries.push(ArgumentDescriptor::flag("-fcxx-modules", Attribute::TooHard));
    entries.push(ArgumentDescriptor::flag("-fmodules", Attribute::TooHard));
    entries.push(ArgumentDescriptor::take_arg("-gcc-toolchain", Arity::Separated, Attribute::PassThrough));
    entries.push(ArgumentDescriptor::take_arg("-include-pch", Arity::EitherForm(None), Attribute::PreprocessorArgument));
    entries.push(ArgumentDescriptor::take_arg("-target", Arity::Separated, Attribute::PassThrough));
    assert(entries.deep_view() =~= table_model());
    ArgumentTable::new(entries)
}

/// No token is matched by two descriptors of the table.
pub proof fn lemma_table_unambiguous()
    ensures
        unambiguous(table_model()),
{
    reveal_strlit("--serialize-diagnostics");
    reveal_strlit("--target");
    reveal_strlit("-Xclang");
    reveal_strlit("-fcxx-modules");
    reveal_strlit("-fmodules");
    reveal_strlit("-gcc-toolchain");
    reveal_strlit("-include-pch");
    reveal_strlit("-target");
    reveal_with_fuel(agrees_from, 24);
    reveal_with_fuel(clear_of, 9);
    reveal_with_fuel(pairwise_clear, 9);
    assert(table_model().len() == 8);
    lemma_unambiguous_by_pairs(table_model());
}

/// Every flag of the family's own table is classified as the table
/// declares it, in each shape that it declares, whatever the baseline says
/// of it.
pub proof fn lemma_descriptor_classifies(i: int, value: Seq<char>)
    requires
        0 <= i < table_model().len(),
    ensures
        classifies_apart(table_model(), gcc::table_model(), table_model()[i], value),
        classifies_fused(table_model(), gcc::table_model(), table_model()[i], value),
{
    lemma_table_unambiguous();
    lemma_extension_descriptor_classifies(table_model(), gcc::table_model(), i, value);
}

/// A flag that enables modules, wherever it stands as an argument of its
/// own, makes the invocation one that cannot be cached.
pub proof fn lemma_modules_cannot_be_cached(arguments: Seq<Seq<char>>, at: int)
    requires
        begins_argument(table_model(), gcc::table_model(), arguments, at),
        arguments[at] == "-fmodules"@ || arguments[at] == "-fcxx-modules"@,
    ensures
        ClangHIP.parsed(arguments) matches CompilerArgumentsModel::CannotCache(
            RejectionModel::TooHard(_),
        ),
{
    lemma_table_unambiguous();
    let table = table_model();
    if arguments[at] == "-fmodules"@ {
        assert(table[4].matches(arguments[at]));
        lemma_find_own(table, 4, arguments[at]);
    } else {
        assert(table[3].matches(arguments[at]));
        lemma_find_own(table, 3, arguments[at]);
    }
    lemma_too_hard_anywhere(table, gcc::table_model(), arguments, at);
}

} // verus!
