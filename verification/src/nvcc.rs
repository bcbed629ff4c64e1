//! The CUDA compiler driver: its flags are laid over the GNU-style baseline,
//! and it is driven by a two-phase protocol of its own.

use vstd::prelude::*;
use vstd::string::*;
use crate::ambiguity::{
    agrees_from, clear_of, lemma_unambiguous_by_pairs, pairwise_clear, unambiguous,
};
use crate::args::{ArgumentDescriptor, ArgumentTable, Arity, Attribute, DescriptorModel};
use crate::compiler::{
    CCompilerImpl, CCompilerKind, Cacheable, CompilerArguments, CompilerArgumentsModel, Failure,
    Invocation, Language, OBJECT, ParsedArguments,
};
use crate::gcc;
use crate::layers::{classifies_apart, classifies_fused, lemma_extension_descriptor_classifies};

verus! {

/// The compiler family of the CUDA compiler driver.
#[derive(Clone, Debug)]
pub struct NVCC;

impl CCompilerImpl for NVCC {
    open spec fn family(&self) -> CCompilerKind {
        CCompilerKind::NVCC
    }

    open spec fn parsed(&self, arguments: Seq<Seq<char>>) -> CompilerArgumentsModel {
        gcc::parsed(table_model(), arguments)
    }

    /// The driver is asked for preprocessed text of the input; it finds the
    /// language by itself.
    open spec fn preprocess_leading(&self, input: Seq<char>, language: Language) -> Seq<Seq<char>> {
        seq!["-E"@, input]
    }

    /// The driver is asked to compile the input to the object file.
    open spec fn compile_leading(&self, input: Seq<char>, language: Language, object: Seq<char>) -> Seq<
        Seq<char>,
    > {
        seq!["-c"@, input, "-o"@, object]
    }

    fn kind(&self) -> (kind: CCompilerKind) {
        CCompilerKind::NVCC
    }

    fn parse_arguments(&self, arguments: &Vec<String>, _cwd: &str) -> (outcome: CompilerArguments) {
        gcc::parse_arguments(arguments, &table())
    }

    fn preprocess(
        &self,
        executable: &str,
        parsed_args: &ParsedArguments,
        cwd: &str,
        env_vars: &Vec<(String, String)>,
    ) -> (run: Invocation) {
        let mut leading: Vec<String> = Vec::new();
        leading.push(String::from_str("-E"));
        leading.push(parsed_args.input.clone());
        assert(leading.deep_view() =~= seq!["-E"@, parsed_args@.input]);
        Invocation::for_preprocessing(executable, leading, parsed_args, cwd, env_vars)
    }

    fn compile(
        &self,
        executable: &str,
        parsed_args: &ParsedArguments,
        cwd: &str,
        env_vars: &Vec<(String, String)>,
    ) -> (planned: Result<(Cacheable, Invocation), Failure>) {
        let object = match parsed_args.outputs.get(OBJECT) {
            Some(object) => object,
            None => {
                return Err(Failure::MissingRequiredOutput);
            },
        };
        let mut leading: Vec<String> = Vec::new();
        leading.push(String::from_str("-c"));
        leading.push(parsed_args.input.clone());
        leading.push(String::from_str("-o"));
        leading.push(object.clone());
        assert(leading.deep_view() =~= seq!["-c"@, parsed_args@.input, "-o"@, object@]);
        Ok((Cacheable::Yes, Invocation::for_compiling(executable, leading, parsed_args, cwd, env_vars)))
    }
}

/// The flags that the driver adds to the baseline.
pub open spec fn table_model() -> Seq<DescriptorModel> {
    seq![
        DescriptorModel::take_arg("--compiler-bindir", Arity::Separated, Attribute::PassThrough),
        DescriptorModel::take_arg("--compiler-options", Arity::Separated, Attribute::PassThrough),
        DescriptorModel::take_arg("--std", Arity::Separated, Attribute::PassThrough),
        DescriptorModel::flag("-O3", Attribute::PassThrough),
        DescriptorModel::take_arg("-Xcompiler", Arity::Separated, Attribute::PassThrough),
        DescriptorModel::take_arg("-Xfatbin", Arity::Separated, Attribute::PassThrough),
        DescriptorModel::take_arg("-Xptxas", Arity::Separated, Attribute::PassThrough),
        DescriptorModel::take_arg("-ccbin", Arity::Separated, Attribute::PassThrough),
        DescriptorModel::take_arg("-gencode", Arity::EitherForm(Some('=')), Attribute::PassThrough),
        DescriptorModel::flag("-lineinfo", Attribute::PassThrough),
        DescriptorModel::take_arg("-maxrregcount", Arity::EitherForm(Some('=')), Attribute::PassThrough),
        DescriptorModel::take_arg("-std", Arity::EitherForm(Some('=')), Attribute::PassThrough),
    ]
}

/// The table that the driver lays over the baseline.
pub fn table() -> (table: ArgumentTable)
    ensures
        table@ == table_model(),
{
    let mut entries: Vec<ArgumentDescriptor> = Vec::new();
    entries.push(ArgumentDescriptor::take_arg("--compiler-bindir", Arity::Separated, Attribute::PassThrough));
    entries.push(ArgumentDescriptor::take_arg("--compiler-options", Arity::Separated, Attribute::PassThrough));
    entries.push(ArgumentDescriptor::take_arg("--std", Arity::Separated, Attribute::PassThrough));
    entries.push(ArgumentDescriptor::flag("-O3", Attribute::PassThrough));
    entries.push(ArgumentDescriptor::take_arg("-Xcompiler", Arity::Separated, Attribute::PassThrough));
    entries.push(ArgumentDescriptor::take_arg("-Xfatbin", Arity::Separated, Attribute::PassThrough));
    entries.push(ArgumentDescriptor::take_arg("-Xptxas", Arity::Separated, Attribute::PassThrough));
    entries.push(ArgumentDescriptor::take_arg("-ccbin", Arity::Separated, Attribute::PassThrough));
    entries.push(ArgumentDescriptor::take_arg("-gencode", Arity::EitherForm(Some('=')), Attribute::PassThrough));
    entries.push(ArgumentDescriptor::flag("-lineinfo", Attribute::PassThrough));
    entries.push(ArgumentDescriptor::take_arg("-maxrregcount", Arity::EitherForm(Some('=')), Attribute::PassThrough));
    entries.push(ArgumentDescriptor::take_arg("-std", Arity::EitherForm(Some('=')), Attribute::PassThrough));
    assert(entries.deep_view() =~= table_model());
    ArgumentTable::new(entries)
}

/// No token is matched by two descriptors of the table.
pub proof fn lemma_table_unambiguous()
    ensures
        unambiguous(table_model()),
{
    reveal_strlit("--compiler-bindir");
    reveal_strlit("--compiler-options");
    reveal_strlit("--std");
    reveal_strlit("-O3");
    reveal_strlit("-Xcompiler");
    reveal_strlit("-Xfatbin");
    reveal_strlit("-Xptxas");
    reveal_strlit("-ccbin");
    reveal_strlit("-gencode");
    reveal_strlit("-lineinfo");
    reveal_strlit("-maxrregcount");
    reveal_strlit("-std");
    reveal_with_fuel(agrees_from, 24);
    reveal_with_fuel(clear_of, 13);
    reveal_with_fuel(pairwise_clear, 13);
    assert(table_model().len() == 12);
    lemma_unambiguous_by_pairs(table_model());
}

/// Every flag of the family's own table is classified as the table
/// declares it, in each shape that it declares, whatever the baseline says
/// of it.
pub proof fn lemma_descriptor_classifies(i: int, value: Seq<char>)
    requires
        0 <= i < table_model().len(),
    ensures
        classifies_apart(table_model(), gcc::table_model(), table_model()[i], value),
        classifies_fused(table_model(), gcc::table_model(), table_model()[i], value),
{
    lemma_table_unambiguous();
    lemma_extension_descriptor_classifies(table_model(), gcc::table_model(), i, value);
}

} // verus!
