use compiler_dispatch::args::{
    classify, Argument, ArgumentDescriptor, ArgumentTable, Arity, Attribute,
};
use compiler_dispatch::clangcl::ClangCl;
use compiler_dispatch::clanghip::ClangHIP;
use compiler_dispatch::compiler::{
    cache_eligibility, CCompilerImpl, CCompilerKind, Cacheable, CompilerArguments, Failure,
    Invocation, Language, ParsedArguments, ProcessResult, Rejection, OBJECT,
};
use compiler_dispatch::hcc::HCC;
use compiler_dispatch::nvcc::NVCC;
use compiler_dispatch::{clanghip, gcc, hcc, msvc, nvcc};

fn argv(tokens: &[&str]) -> Vec<String> {
    tokens.iter().map(|t| t.to_string()).collect()
}

fn recognized(outcome: CompilerArguments) -> ParsedArguments {
    match outcome {
        CompilerArguments::Recognized(parsed) => parsed,
        other => panic!("not recognized: {:?}", other),
    }
}

fn rejection(outcome: CompilerArguments) -> Rejection {
    match outcome {
        CompilerArguments::CannotCache(why) => why,
        other => panic!("not rejected: {:?}", other),
    }
}

fn env() -> Vec<(String, String)> {
    vec![("PATH".to_string(), "/usr/bin".to_string()), ("LANG".to_string(), "C".to_string())]
}

fn exited(code: i32) -> ProcessResult {
    ProcessResult { stdout: b"out".to_vec(), stderr: b"err".to_vec(), status: Some(code) }
}

#[test]
fn kinds_identify_the_families() {
    assert_eq!(ClangCl.kind(), CCompilerKind::ClangCl);
    assert_eq!(ClangHIP.kind(), CCompilerKind::ClangHIP);
    assert_eq!(HCC.kind(), CCompilerKind::HCC);
    assert_eq!(NVCC.kind(), CCompilerKind::NVCC);
}

#[test]
fn cuda_compile_is_recognized() {
    let parsed = recognized(NVCC.parse_arguments(
        &argv(&["-c", "input.cu", "-o", "out.o", "-gencode", "arch=compute_70,code=sm_70"]),
        "/work",
    ));
    assert_eq!(parsed.input, "input.cu");
    assert_eq!(parsed.language, Language::Cxx);
    assert_eq!(parsed.outputs.get(OBJECT), Some(&"out.o".to_string()));
    assert_eq!(parsed.outputs.get("object"), Some(&"out.o".to_string()));
    assert_eq!(parsed.common_args, argv(&["-gencode", "arch=compute_70,code=sm_70"]));
    assert!(parsed.common_args.contains(&"-gencode".to_string()));
    assert!(parsed.preprocessor_args.is_empty());
    let (verdict, run) = NVCC.compile("/usr/local/cuda/bin/nvcc", &parsed, "/work", &env()).unwrap();
    assert_eq!(verdict, Cacheable::Yes);
    assert_eq!(
        run,
        Invocation {
            executable: "/usr/local/cuda/bin/nvcc".to_string(),
            arguments: argv(&[
                "-c",
                "input.cu",
                "-o",
                "out.o",
                "-gencode",
                "arch=compute_70,code=sm_70"
            ]),
            env_vars: env(),
            cwd: "/work".to_string(),
            stdin: None,
        }
    );
    assert_eq!(
        cache_eligibility(&CompilerArguments::Recognized(parsed), &exited(0)),
        Cacheable::Yes
    );
}

#[test]
fn cuda_fused_gencode_is_normalized() {
    let split = recognized(NVCC.parse_arguments(
        &argv(&["-c", "input.cu", "-o", "out.o", "-gencode", "arch=compute_70,code=sm_70"]),
        "/work",
    ));
    let fused = recognized(NVCC.parse_arguments(
        &argv(&["-c", "input.cu", "-o", "out.o", "-gencode=arch=compute_70,code=sm_70"]),
        "/work",
    ));
    assert_eq!(split.common_args, fused.common_args);
    assert_eq!(fused.common_args, argv(&["-gencode", "arch=compute_70,code=sm_70"]));
}

#[test]
fn modules_cannot_be_cached() {
    let outcome = ClangHIP.parse_arguments(&argv(&["-c", "a.cpp", "-fmodules", "-o", "a.o"]), "/work");
    assert_eq!(rejection(outcome), Rejection::TooHard("-fmodules".to_string()));
    let outcome = ClangHIP.parse_arguments(&argv(&["-fcxx-modules", "-c", "a.cpp"]), "/work");
    assert_eq!(rejection(outcome), Rejection::TooHard("-fcxx-modules".to_string()));
}

#[test]
fn missing_output_fails_the_compile() {
    let parsed = recognized(NVCC.parse_arguments(&argv(&["-c", "input.cu"]), "/work"));
    assert_eq!(parsed.input, "input.cu");
    assert!(!parsed.outputs.contains(OBJECT));
    assert_eq!(NVCC.compile("nvcc", &parsed, "/work", &env()), Err(Failure::MissingRequiredOutput));
    assert_eq!(gcc::compile("gcc", &parsed, "/work", &env()), Err(Failure::MissingRequiredOutput));
    assert_eq!(msvc::compile("cl", &parsed, "/work", &env()), Err(Failure::MissingRequiredOutput));
    assert_eq!(
        cache_eligibility(&CompilerArguments::Recognized(parsed), &exited(0)),
        Cacheable::No
    );
}

#[test]
fn too_hard_flag_rejects_wherever_it_stands() {
    let others = ["-c", "a.c", "-Wall", "-DX", "-O2"];
    for at in 0..=others.len() {
        let mut tokens: Vec<&str> = others.to_vec();
        tokens.insert(at, "-E");
        assert_eq!(
            rejection(HCC.parse_arguments(&argv(&tokens), "/work")),
            Rejection::TooHard("-E".to_string())
        );
    }
    let reversed = ["-O2", "-DX", "-E", "-Wall", "a.c", "-c"];
    assert_eq!(
        rejection(HCC.parse_arguments(&argv(&reversed), "/work")),
        Rejection::TooHard("-E".to_string())
    );
}

#[test]
fn too_hard_beats_every_other_outcome() {
    assert_eq!(
        rejection(NVCC.parse_arguments(&argv(&["-E"]), "/work")),
        Rejection::TooHard("-E".to_string())
    );
    assert_eq!(
        rejection(NVCC.parse_arguments(&argv(&["a.c", "b.c", "-c", "-M"]), "/work")),
        Rejection::TooHard("-M".to_string())
    );
    assert_eq!(
        rejection(NVCC.parse_arguments(&argv(&["-c", "a.c", "@args.rsp"]), "/work")),
        Rejection::TooHard("@".to_string())
    );
}

#[test]
fn first_too_hard_flag_is_reported() {
    assert_eq!(
        rejection(NVCC.parse_arguments(&argv(&["-c", "-save-temps", "a.c", "-E"]), "/work")),
        Rejection::TooHard("-save-temps".to_string())
    );
}

#[test]
fn too_hard_token_taken_as_a_value_is_no_flag() {
    let parsed = recognized(NVCC.parse_arguments(&argv(&["-c", "a.c", "-o", "-E"]), "/work"));
    assert_eq!(parsed.outputs.get(OBJECT), Some(&"-E".to_string()));
}

#[test]
fn not_a_compilation_without_compile_flag() {
    assert!(matches!(
        NVCC.parse_arguments(&argv(&["a.o", "-o", "a.out"]), "/work"),
        CompilerArguments::NotACompilation
    ));
    assert!(matches!(
        HCC.parse_arguments(&argv(&["--version"]), "/work"),
        CompilerArguments::NotACompilation
    ));
    assert!(matches!(
        ClangCl.parse_arguments(&argv(&[]), "/work"),
        CompilerArguments::NotACompilation
    ));
}

#[test]
fn multiple_inputs_cannot_be_cached() {
    assert_eq!(
        rejection(ClangHIP.parse_arguments(&argv(&["-c", "a.c", "b.c"]), "/work")),
        Rejection::MultipleInputs
    );
}

#[test]
fn no_input_cannot_be_cached() {
    assert_eq!(
        rejection(ClangHIP.parse_arguments(&argv(&["-c", "-o", "a.o"]), "/work")),
        Rejection::NoInput
    );
}

#[test]
fn unknown_language_cannot_be_cached() {
    assert_eq!(
        rejection(HCC.parse_arguments(&argv(&["-c", "a.f90"]), "/work")),
        Rejection::UnknownLanguage
    );
    assert_eq!(
        rejection(HCC.parse_arguments(&argv(&["-c", "a.c", "-x", "fortran"]), "/work")),
        Rejection::UnknownLanguage
    );
    assert_eq!(
        rejection(HCC.parse_arguments(&argv(&["-c", "a.c", "-x", "fortran", "-x", "c"]), "/work")),
        Rejection::UnknownLanguage
    );
    assert_eq!(
        rejection(HCC.parse_arguments(&argv(&["-c", "a.c", "-x"]), "/work")),
        Rejection::UnknownLanguage
    );
}

#[test]
fn explicit_language_overrides_the_extension() {
    let parsed = recognized(HCC.parse_arguments(&argv(&["-x", "c++", "-c", "a.c"]), "/work"));
    assert_eq!(parsed.language, Language::Cxx);
    let parsed = recognized(HCC.parse_arguments(&argv(&["-xobjective-c", "-c", "a.unknown"]), "/work"));
    assert_eq!(parsed.language, Language::ObjectiveC);
    let parsed = recognized(HCC.parse_arguments(&argv(&["-x", "c", "-x", "objective-c++", "-c", "a"]), "/work"));
    assert_eq!(parsed.language, Language::ObjectiveCxx);
    assert!(parsed.common_args.is_empty());
    assert!(parsed.preprocessor_args.is_empty());
}

#[test]
fn arguments_are_sorted_into_their_lists_in_order() {
    let parsed = recognized(ClangHIP.parse_arguments(
        &argv(&[
            "-Wall",
            "-Iinc",
            "-c",
            "-DA=1",
            "a.cpp",
            "-include-pch",
            "a.pch",
            "-O2",
            "-o",
            "a.o",
            "-target",
            "amdgcn",
            "-MD",
            "-MF",
            "a.d",
            "-funknown",
            "-unknown",
        ]),
        "/work",
    ));
    assert_eq!(parsed.input, "a.cpp");
    assert_eq!(parsed.language, Language::Cxx);
    assert_eq!(parsed.outputs.get(OBJECT), Some(&"a.o".to_string()));
    assert_eq!(
        parsed.preprocessor_args,
        argv(&["-I", "inc", "-D", "A=1", "-include-pch", "a.pch", "-MD", "-MF", "a.d"])
    );
    assert_eq!(
        parsed.common_args,
        argv(&["-Wall", "-O2", "-target", "amdgcn", "-funknown", "-u", "nknown"])
    );
}

#[test]
fn last_output_flag_wins() {
    let parsed = recognized(NVCC.parse_arguments(&argv(&["-c", "a.cu", "-o", "a.o", "-ob.o"]), "/work"));
    assert_eq!(parsed.outputs.get(OBJECT), Some(&"b.o".to_string()));
    let parsed = recognized(NVCC.parse_arguments(&argv(&["-c", "a.cu", "-oa.o", "-o"]), "/work"));
    assert_eq!(parsed.outputs.get(OBJECT), None);
}

#[test]
fn hcc_passes_its_fused_flags_verbatim() {
    let parsed = recognized(HCC.parse_arguments(
        &argv(&["-hc", "--amdgpu-target=gfx900", "-c", "k.cpp", "--driver-mode=g++", "-o", "k.o"]),
        "/work",
    ));
    assert_eq!(parsed.common_args, argv(&["-hc", "--amdgpu-target=gfx900", "--driver-mode=g++"]));
    let bare = recognized(HCC.parse_arguments(&argv(&["-c", "--amdgpu-target", "k.cpp"]), "/work"));
    assert_eq!(bare.common_args, argv(&["--amdgpu-target"]));
    assert_eq!(bare.input, "k.cpp");
    let two = HCC.parse_arguments(&argv(&["-c", "k.cpp", "--amdgpu-target", "gfx900"]), "/work");
    assert_eq!(rejection(two), Rejection::MultipleInputs);
}

#[test]
fn nvcc_std_does_not_swallow_stdlib() {
    let parsed = recognized(NVCC.parse_arguments(
        &argv(&["-c", "a.cu", "-std=c++14", "-stdlib=libc++", "--std", "c++11", "-std", "c++17"]),
        "/work",
    ));
    assert_eq!(parsed.preprocessor_args, argv(&["-stdlib=libc++"]));
    assert_eq!(parsed.common_args, argv(&["-std", "c++14", "--std", "c++11", "-std", "c++17"]));
}

#[test]
fn derived_family_overrides_and_reproduces_the_base() {
    let base = gcc::table();
    let none = ArgumentTable::empty();
    let hip = clanghip::table();
    let tokens = argv(&["-include-pch", "a.pch", "-includea.h", "-fmodules", "-c", "-o", "x"]);
    let derived = classify(&hip, &base, &tokens);
    let plain = classify(&none, &base, &tokens);
    assert_eq!(derived[0].spelling(), "-include-pch");
    assert_eq!(derived[0].value(), Some(&"a.pch".to_string()));
    assert_eq!(plain[0].spelling(), "-include");
    assert_eq!(plain[0].value(), Some(&"-pch".to_string()));
    assert_eq!(derived[1], plain[2]);
    assert_eq!(derived[2].attribute(), Some(Attribute::TooHard));
    assert_eq!(plain[3].attribute(), Some(Attribute::PassThrough));
    let only_base = argv(&["-c", "a.c", "-o", "a.o", "-DX", "-I", "inc", "-Wall"]);
    assert_eq!(classify(&hip, &base, &only_base), classify(&none, &base, &only_base));
    assert_eq!(classify(&hcc::table(), &base, &only_base), classify(&none, &base, &only_base));
    assert_eq!(classify(&nvcc::table(), &base, &only_base), classify(&none, &base, &only_base));
}

fn shapes(flag: &str, arity: Arity) -> Vec<(Vec<String>, Option<String>)> {
    let value = "VAL".to_string();
    let fused = |sep: Option<char>| {
        let mut token = flag.to_string();
        if let Some(c) = sep {
            token.push(c);
        }
        token.push_str("VAL");
        token
    };
    match arity {
        Arity::NoValue => vec![(vec![flag.to_string()], None)],
        Arity::Separated => vec![(vec![flag.to_string(), value.clone()], Some(value))],
        Arity::Concatenated(sep) => vec![(vec![fused(sep)], Some(value))],
        Arity::EitherForm(sep) => vec![
            (vec![flag.to_string(), value.clone()], Some(value.clone())),
            (vec![fused(sep)], Some(value)),
        ],
    }
}

fn check_every_descriptor(extension: &ArgumentTable, base: &ArgumentTable, of_base: bool) {
    let subject = if of_base { base } else { extension };
    for i in 0..subject.len() {
        let d = subject.get(i).unwrap();
        for (tokens, value) in shapes(&d.flag, d.arity) {
            if of_base && tokens.iter().any(|t| extension.find(t).is_some()) {
                continue;
            }
            let items = classify(extension, base, &tokens);
            assert_eq!(items.len(), 1, "{:?}", tokens);
            assert_eq!(items[0].attribute(), Some(d.attribute), "{:?}", tokens);
            assert_eq!(items[0].spelling(), &d.flag);
            assert_eq!(items[0].value(), value.as_ref());
            let expected = match d.arity {
                Arity::EitherForm(_) => vec![d.flag.clone(), "VAL".to_string()],
                _ => tokens.clone(),
            };
            match &items[0] {
                Argument::Switch { tokens: passed, .. } => assert_eq!(passed, &expected),
                Argument::Operand(_) => panic!("operand"),
            }
            let mut line = vec!["-c".to_string(), "in.c".to_string()];
            line.extend(tokens.iter().cloned());
            let outcome = compiler_dispatch::parse::interpret(&classify(extension, base, &line));
            match d.attribute {
                Attribute::TooHard => assert_eq!(
                    rejection(outcome),
                    Rejection::TooHard(d.flag.clone())
                ),
                Attribute::PreprocessorArgument => {
                    let parsed = recognized(outcome);
                    assert_eq!(parsed.preprocessor_args, expected);
                    assert!(parsed.common_args.is_empty());
                },
                Attribute::PassThrough => {
                    let parsed = recognized(outcome);
                    assert_eq!(parsed.common_args, expected);
                    assert!(parsed.preprocessor_args.is_empty());
                },
                Attribute::Output => {
                    let parsed = recognized(outcome);
                    assert_eq!(parsed.outputs.get(OBJECT), Some(&"VAL".to_string()));
                    assert!(parsed.common_args.is_empty());
                    assert!(parsed.preprocessor_args.is_empty());
                },
                Attribute::DoCompilation => {
                    let parsed = recognized(outcome);
                    assert!(parsed.common_args.is_empty());
                    assert!(parsed.preprocessor_args.is_empty());
                },
                Attribute::Language => {
                    assert_eq!(rejection(outcome), Rejection::UnknownLanguage);
                },
            }
        }
    }
}

#[test]
fn every_descriptor_classifies_as_declared() {
    let base = gcc::table();
    let none = ArgumentTable::empty();
    check_every_descriptor(&none, &base, true);
    for extension in [clanghip::table(), hcc::table(), nvcc::table()] {
        check_every_descriptor(&extension, &base, false);
        check_every_descriptor(&extension, &base, true);
    }
    check_every_descriptor(&none, &msvc::table(), true);
}

#[test]
fn built_in_tables_are_unambiguous() {
    assert!(gcc::table().is_unambiguous());
    assert!(msvc::table().is_unambiguous());
    assert!(clanghip::table().is_unambiguous());
    assert!(hcc::table().is_unambiguous());
    assert!(nvcc::table().is_unambiguous());
    assert!(ArgumentTable::empty().is_unambiguous());
    assert_eq!(gcc::table().len(), 63);
    assert_eq!(msvc::table().len(), 22);
    assert_eq!(clanghip::table().len(), 8);
    assert_eq!(hcc::table().len(), 3);
    assert_eq!(nvcc::table().len(), 12);
}

#[test]
fn ambiguous_tables_are_told_apart() {
    let same_spelling = ArgumentTable::new(vec![
        ArgumentDescriptor::flag("-foo", Attribute::PassThrough),
        ArgumentDescriptor::take_arg("-foo", Arity::Separated, Attribute::TooHard),
    ]);
    assert!(!same_spelling.is_unambiguous());
    let prefix = ArgumentTable::new(vec![
        ArgumentDescriptor::flag("-include-pch", Attribute::PassThrough),
        ArgumentDescriptor::take_arg("-include", Arity::EitherForm(None), Attribute::PassThrough),
    ]);
    assert!(!prefix.is_unambiguous());
    let separated = ArgumentTable::new(vec![
        ArgumentDescriptor::take_arg("-std", Arity::EitherForm(Some('=')), Attribute::PassThrough),
        ArgumentDescriptor::take_arg("-stdlib", Arity::Concatenated(Some('=')), Attribute::PassThrough),
        ArgumentDescriptor::flag("-std=", Attribute::PassThrough),
    ]);
    assert!(!separated.is_unambiguous());
    let clear = ArgumentTable::new(vec![
        ArgumentDescriptor::take_arg("-std", Arity::EitherForm(Some('=')), Attribute::PassThrough),
        ArgumentDescriptor::take_arg("-stdlib", Arity::Concatenated(Some('=')), Attribute::PassThrough),
        ArgumentDescriptor::flag("-M", Attribute::PassThrough),
        ArgumentDescriptor::flag("-MD", Attribute::PassThrough),
    ]);
    assert!(clear.is_unambiguous());
}

#[test]
fn gnu_style_invocations() {
    let parsed = recognized(HCC.parse_arguments(
        &argv(&["-c", "a.cpp", "-o", "a.o", "-DX", "-hc", "-I", "inc"]),
        "/work",
    ));
    let run = HCC.preprocess("/opt/hcc", &parsed, "/work", &env());
    assert_eq!(
        run,
        Invocation {
            executable: "/opt/hcc".to_string(),
            arguments: argv(&["-x", "c++", "-E", "a.cpp", "-D", "X", "-I", "inc", "-hc"]),
            env_vars: env(),
            cwd: "/work".to_string(),
            stdin: None,
        }
    );
    let (verdict, run) = HCC.compile("/opt/hcc", &parsed, "/work", &env()).unwrap();
    assert_eq!(verdict, Cacheable::Yes);
    assert_eq!(
        run.arguments,
        argv(&["-c", "-x", "c++", "a.cpp", "-o", "a.o", "-hc"])
    );
    assert_eq!(run.executable, "/opt/hcc");
    assert_eq!(run.cwd, "/work");
    assert_eq!(run.env_vars, env());
    assert_eq!(run.stdin, None);
    assert_eq!(ClangHIP.preprocess("/opt/hcc", &parsed, "/work", &env()), HCC.preprocess("/opt/hcc", &parsed, "/work", &env()));
    assert_eq!(ClangHIP.compile("/opt/hcc", &parsed, "/work", &env()), HCC.compile("/opt/hcc", &parsed, "/work", &env()));
}

#[test]
fn nvcc_invocations() {
    let parsed = recognized(NVCC.parse_arguments(
        &argv(&["-c", "k.cu", "-o", "k.o", "-DX", "-lineinfo", "-ccbin", "/usr/bin/g++"]),
        "/work",
    ));
    let run = NVCC.preprocess("nvcc", &parsed, "/work", &Vec::new());
    assert_eq!(
        run,
        Invocation {
            executable: "nvcc".to_string(),
            arguments: argv(&["-E", "k.cu", "-D", "X", "-lineinfo", "-ccbin", "/usr/bin/g++"]),
            env_vars: Vec::new(),
            cwd: "/work".to_string(),
            stdin: None,
        }
    );
    let (_, run) = NVCC.compile("nvcc", &parsed, "/work", &Vec::new()).unwrap();
    assert_eq!(
        run.arguments,
        argv(&["-c", "k.cu", "-o", "k.o", "-lineinfo", "-ccbin", "/usr/bin/g++"])
    );
    assert!(run.env_vars.is_empty());
}

#[test]
fn clang_cl_accepts_both_switch_styles() {
    let dashed = recognized(ClangCl.parse_arguments(
        &argv(&["-c", "a.cpp", "-Foa.obj", "-DX=1", "-I", "inc", "-W4"]),
        "/work",
    ));
    let slashed = recognized(ClangCl.parse_arguments(
        &argv(&["/c", "a.cpp", "/Foa.obj", "/DX=1", "/I", "inc", "/W4"]),
        "/work",
    ));
    for parsed in [&dashed, &slashed] {
        assert_eq!(parsed.input, "a.cpp");
        assert_eq!(parsed.language, Language::Cxx);
        assert_eq!(parsed.outputs.get(OBJECT), Some(&"a.obj".to_string()));
        assert_eq!(parsed.preprocessor_args, argv(&["-DX=1", "-I", "inc"]));
        assert_eq!(parsed.common_args, argv(&["-W4"]));
    }
    let run = ClangCl.preprocess("clang-cl", &dashed, "/work", &env());
    assert_eq!(run.arguments, argv(&["-E", "a.cpp", "-nologo", "-DX=1", "-I", "inc", "-W4"]));
    let (verdict, run) = ClangCl.compile("clang-cl", &slashed, "/work", &env()).unwrap();
    assert_eq!(verdict, Cacheable::Yes);
    assert_eq!(run.arguments, argv(&["-c", "a.cpp", "-Foa.obj", "-W4"]));
    assert_eq!(run.env_vars, env());
}

#[test]
fn clang_cl_rejections() {
    assert_eq!(
        rejection(ClangCl.parse_arguments(&argv(&["/c", "a.c", "/Zi", "/Foa.obj"]), "/work")),
        Rejection::TooHard("-Zi".to_string())
    );
    assert_eq!(
        rejection(ClangCl.parse_arguments(&argv(&["-c", "a.c", "-Fdx.pdb"]), "/work")),
        Rejection::TooHard("-Fd".to_string())
    );
    assert_eq!(
        rejection(ClangCl.parse_arguments(&argv(&["/c", "/src/a.c"]), "/work")),
        Rejection::NoInput
    );
    assert_eq!(msvc::with_dash("/c"), "-c");
    assert_eq!(msvc::with_dash("/"), "-");
    assert_eq!(msvc::with_dash("-c"), "-c");
    assert_eq!(msvc::with_dash("a/b"), "a/b");
    assert_eq!(msvc::with_dash(""), "");
}

#[test]
fn compiling_takes_the_common_arguments_only() {
    let line = argv(&["-c", "a.cpp", "-o", "a.o", "-DX", "-Iinc", "-include", "p.h", "-O2", "-g"]);
    let parsed = recognized(NVCC.parse_arguments(&line, "/work"));
    assert_eq!(parsed.preprocessor_args, argv(&["-D", "X", "-I", "inc", "-include", "p.h"]));
    assert_eq!(parsed.common_args, argv(&["-O2", "-g"]));
    let (_, run) = NVCC.compile("nvcc", &parsed, "/work", &env()).unwrap();
    assert_eq!(run.arguments, argv(&["-c", "a.cpp", "-o", "a.o", "-O2", "-g"]));
    let (_, run) = gcc::compile("gcc", &parsed, "/work", &env()).unwrap();
    assert_eq!(run.arguments, argv(&["-c", "-x", "c++", "a.cpp", "-o", "a.o", "-O2", "-g"]));
    let (_, run) = msvc::compile("cl", &parsed, "/work", &env()).unwrap();
    assert_eq!(run.arguments, argv(&["-c", "a.cpp", "-Foa.o", "-O2", "-g"]));
    for token in &parsed.preprocessor_args {
        assert!(!run.arguments.contains(token));
    }
    let run = NVCC.preprocess("nvcc", &parsed, "/work", &env());
    assert_eq!(
        run.arguments,
        argv(&["-E", "a.cpp", "-D", "X", "-I", "inc", "-include", "p.h", "-O2", "-g"])
    );
    let run = gcc::preprocess("gcc", &parsed, "/work", &env());
    assert_eq!(
        run.arguments,
        argv(&["-x", "c++", "-E", "a.cpp", "-D", "X", "-I", "inc", "-include", "p.h", "-O2", "-g"])
    );
    let run = msvc::preprocess("cl", &parsed, "/work", &env());
    assert_eq!(
        run.arguments,
        argv(&["-E", "a.cpp", "-nologo", "-D", "X", "-I", "inc", "-include", "p.h", "-O2", "-g"])
    );
}

#[test]
fn invocations_give_the_child_no_standard_input() {
    let parsed = recognized(HCC.parse_arguments(&argv(&["-c", "a.c", "-o", "a.o"]), "/work"));
    assert_eq!(HCC.preprocess("hcc", &parsed, "/work", &env()).stdin, None);
    assert_eq!(HCC.compile("hcc", &parsed, "/work", &env()).unwrap().1.stdin, None);
    assert_eq!(NVCC.preprocess("nvcc", &parsed, "/work", &env()).stdin, None);
    assert_eq!(NVCC.compile("nvcc", &parsed, "/work", &env()).unwrap().1.stdin, None);
    assert_eq!(ClangCl.preprocess("cl", &parsed, "/work", &env()).stdin, None);
    assert_eq!(ClangCl.compile("cl", &parsed, "/work", &env()).unwrap().1.stdin, None);
}

#[test]
fn verdict_does_not_look_at_the_exit_status() {
    let parsed = recognized(NVCC.parse_arguments(&argv(&["-c", "a.cu", "-o", "a.o"]), "/work"));
    let outcome = CompilerArguments::Recognized(parsed);
    assert_eq!(cache_eligibility(&outcome, &exited(0)), Cacheable::Yes);
    assert_eq!(cache_eligibility(&outcome, &exited(1)), Cacheable::Yes);
    let killed = ProcessResult { stdout: Vec::new(), stderr: Vec::new(), status: None };
    assert_eq!(cache_eligibility(&outcome, &killed), Cacheable::Yes);
}

#[test]
fn rejected_invocations_are_never_cacheable() {
    let too_hard = CompilerArguments::CannotCache(Rejection::TooHard("-E".to_string()));
    assert_eq!(cache_eligibility(&too_hard, &exited(0)), Cacheable::No);
    assert_eq!(cache_eligibility(&CompilerArguments::NotACompilation, &exited(0)), Cacheable::No);
    assert_eq!(
        cache_eligibility(&CompilerArguments::CannotCache(Rejection::NoInput), &exited(0)),
        Cacheable::No
    );
}

#[test]
fn working_directory_has_no_bearing_on_parsing() {
    let line = argv(&["-c", "a.cu", "-o", "a.o", "-I", "inc"]);
    let here = recognized(NVCC.parse_arguments(&line, "/here"));
    let there = recognized(NVCC.parse_arguments(&line, "/there"));
    assert_eq!(here.input, there.input);
    assert_eq!(here.preprocessor_args, there.preprocessor_args);
    assert_eq!(here.common_args, there.common_args);
    assert_eq!(here.outputs.get(OBJECT), there.outputs.get(OBJECT));
}

#[test]
fn identical_requests_plan_identical_preprocessing() {
    let line = argv(&["-c", "a.cu", "-o", "a.o", "-DX"]);
    let first = NVCC.preprocess("nvcc", &recognized(NVCC.parse_arguments(&line, "/w")), "/w", &env());
    let second = NVCC.preprocess("nvcc", &recognized(NVCC.parse_arguments(&line, "/w")), "/w", &env());
    assert_eq!(first, second);
    assert_eq!(first.env_vars, env());
}
