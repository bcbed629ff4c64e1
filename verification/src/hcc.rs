//! The heterogeneous-compute compiler: the GNU style with flags of its own.

use vstd::prelude::*;
use crate::ambiguity::{
    agrees_from, clear_of, lemma_unambiguous_by_pairs, pairwise_clear, unambiguous,
};
use crate::args::{ArgumentDescriptor, ArgumentTable, Arity, Attribute, DescriptorModel};
use crate::compiler::{
    CCompilerImpl, CCompilerKind, Cacheable, CompilerArguments, CompilerArgumentsModel, Failure,
    Invocation, Language, ParsedArguments,
};
use crate::gcc;
use crate::layers::{classifies_apart, classifies_fused, lemma_extension_descriptor_classifies};

verus! {

/// The compiler family of the heterogeneous-compute compiler.
#[derive(Clone, Debug)]
pub struct HCC;

impl CCompilerImpl for HCC {
    open spec fn family(&self) -> CCompilerKind {
        CCompilerKind::HCC
    }

    open spec fn parsed(&self, arguments: Seq<Seq<char>>) -> CompilerArgumentsModel {
        gcc::parsed(table_model(), arguments)
    }

    open spec fn preprocess_leading(&self, input: Seq<char>, language: Language) -> Seq<Seq<char>> {
        gcc::preprocess_leading(input, language)
    }

    open spec fn compile_leading(&self, input: Seq<char>, language: Language, object: Seq<char>) -> Seq<
        Seq<char>,
    > {
        gcc::compile_leading(input, language, object)
    }

    fn kind(&self) -> (kind: CCompilerKind) {
        CCompilerKind::HCC
    }

    fn parse_arguments(&self, arguments: &Vec<String>, _cwd: &str) -> (outcome: CompilerArguments) {
        gcc::parse_arguments(arguments, &table())
    }

    fn preprocess(
        &self,
        executable: &str,
        parsed_args: &ParsedArguments,
        cwd: &str,
        env_vars: &Vec<(String, String)>,
    ) -> (run: Invocation) {
        gcc::preprocess(executable, parsed_args, cwd, env_vars)
    }

    fn compile(
        &self,
        executable: &str,
        parsed_args: &ParsedArguments,
        cwd: &str,
        env_vars: &Vec<(String, String)>,
    ) -> (planned: Result<(Cacheable, Invocation), Failure>) {
        gcc::compile(executable, parsed_args, cwd, env_vars)
    }
}

/// The flags that the compiler adds to the baseline.
pub open spec fn table_model() -> Seq<DescriptorModel> {
    seq![
        DescriptorModel::take_arg("--amdgpu-target", Arity::Concatenated(Some('=')), Attribute::PassThrough),
        DescriptorModel::take_arg("--driver-mode", Arity::Concatenated(Some('=')), Attribute::PassThrough),
        DescriptorModel::flag("-hc", Attribute::PassThrough),
    ]
}

/// The table that the compiler lays over the baseline.
pub fn table() -> (table: ArgumentTable)
    ensures
        table@ == table_model(),
{
    let mut entries: Vec<ArgumentDescriptor> = Vec::new();
    entries.push(ArgumentDescriptor::take_arg("--amdgpu-target", Arity::Concatenated(Some('=')), Attribute::PassThrough));
    entries.push(ArgumentDescriptor::take_arg("--driver-mode", Arity::Concatenated(Some('=')), Attribute::PassThrough));
    entries.push(ArgumentDescriptor::flag("-hc", Attribute::PassThrough));
    assert(entries.deep_view() =~= table_model());
    ArgumentTable::new(entries)
}

/// No token is matched by two descriptors of the table.
pub proof fn lemma_table_unambiguous()
    ensures
        unambiguous(table_model()),
{
    reveal_strlit("--amdgpu-target");
    reveal_strlit("--driver-mode");
    reveal_strlit("-hc");
    reveal_with_fuel(agrees_from, 24);
    reveal_with_fuel(clear_of, 4);
    reveal_with_fuel(pairwise_clear, 4);
    assert(table_model().len() == 3);
    lemma_unambiguous_by_pairs(table_model());
}

/// Every flag of the family's own table is classified as the table
/// declares it, in each shape that it declares, whatever the baseline says
/// of it.
pub proof fn lemma_descriptor_classifies(i: int, value: Seq<char>)
    requires
        0 <= i < table_model().len(),
    ensures
        classifies_apart(table_model(), gcc::table_model(), table_model()[i], value),
        classifies_fused(table_model(), gcc::table_model(), table_model()[i], value),
{
    lemma_table_unambiguous();
    lemma_extension_descriptor_classifies(table_model(), gcc::table_model(), i, value);
}

} // verus!
