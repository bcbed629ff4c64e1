//! The MSVC-emulating driver of clang: it takes over the MSVC-style
//! baseline as it stands.

use vstd::prelude::*;
use crate::compiler::{
    CCompilerImpl, CCompilerKind, Cacheable, CompilerArguments, CompilerArgumentsModel, Failure,
    Invocation, Language, ParsedArguments,
};
use crate::msvc;

verus! {

/// The compiler family of the MSVC-emulating driver of clang.
#[derive(Clone, Debug)]
pub struct ClangCl;

impl CCompilerImpl for ClangCl {
    open spec fn family(&self) -> CCompilerKind {
        CCompilerKind::ClangCl
    }

    open spec fn parsed(&self, arguments: Seq<Seq<char>>) -> CompilerArgumentsModel {
        msvc::parsed(msvc::table_model(), arguments)
    }

    open spec fn preprocess_leading(&self, input: Seq<char>, language: Language) -> Seq<Seq<char>> {
        msvc::preprocess_leading(input)
    }

    open spec fn compile_leading(&self, input: Seq<char>, language: Language, object: Seq<char>) -> Seq<
        Seq<char>,
    > {
        msvc::compile_leading(input, object)
    }

    fn kind(&self) -> (kind: CCompilerKind) {
        CCompilerKind::ClangCl
    }

    fn parse_arguments(&self, arguments: &Vec<String>, _cwd: &str) -> (outcome: CompilerArguments) {
        msvc::parse_arguments(arguments, &msvc::table())
    }

    fn preprocess(
        &self,
        executable: &str,
        parsed_args: &ParsedArguments,
        cwd: &str,
        env_vars: &Vec<(String, String)>,
    ) -> (run: Invocation) {
        msvc::preprocess(executable, parsed_args, cwd, env_vars)
    }

    fn compile(
        &self,
        executable: &str,
        parsed_args: &ParsedArguments,
        cwd: &str,
        env_vars: &Vec<(String, String)>,
    ) -> (planned: Result<(Cacheable, Invocation), Failure>) {
        msvc::compile(executable, parsed_args, cwd, env_vars)
    }
}

} // verus!
