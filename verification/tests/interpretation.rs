use compiler_dispatch::args::{Argument, Attribute};
use compiler_dispatch::compiler::{
    append_strings, copy_env, CompilerArguments, Invocation, Language, Outputs, ParsedArguments,
    Rejection, OBJECT,
};
use compiler_dispatch::parse::{collect_tokens, interpret, language_of, outputs_of, pick};

fn list(tokens: &[&str]) -> Vec<String> {
    tokens.iter().map(|t| t.to_string()).collect()
}

fn flag(spelling: &str, attribute: Attribute) -> Argument {
    Argument::Switch {
        flag: spelling.to_string(),
        attribute,
        value: None,
        tokens: list(&[spelling]),
    }
}

fn valued(spelling: &str, attribute: Attribute, value: &str, tokens: &[&str]) -> Argument {
    Argument::Switch {
        flag: spelling.to_string(),
        attribute,
        value: Some(value.to_string()),
        tokens: list(tokens),
    }
}

fn operand(token: &str) -> Argument {
    Argument::Operand(token.to_string())
}

fn sample() -> Vec<Argument> {
    vec![
        flag("-Wall", Attribute::PassThrough),
        valued("-I", Attribute::PreprocessorArgument, "inc", &["-I", "inc"]),
        flag("-c", Attribute::DoCompilation),
        operand("main.c"),
        valued("-o", Attribute::Output, "first.o", &["-o", "first.o"]),
        valued("-D", Attribute::PreprocessorArgument, "X", &["-DX"]),
        valued("-o", Attribute::Output, "main.o", &["-o", "main.o"]),
        flag("-O2", Attribute::PassThrough),
    ]
}

#[test]
fn pick_selects_by_kind_in_order() {
    let items = sample();
    let outputs = pick(&items, Some(Attribute::Output));
    assert_eq!(outputs.len(), 2);
    assert_eq!(outputs[0].value(), Some(&"first.o".to_string()));
    assert_eq!(outputs[1].value(), Some(&"main.o".to_string()));
    let operands = pick(&items, None);
    assert_eq!(operands, vec![&operand("main.c")]);
    assert!(pick(&items, Some(Attribute::TooHard)).is_empty());
    assert!(pick(&items, Some(Attribute::Language)).is_empty());
    assert_eq!(pick(&items, Some(Attribute::PassThrough)).len(), 2);
    assert!(pick(&Vec::new(), None).is_empty());
}

#[test]
fn collect_tokens_concatenates_in_order() {
    let items = sample();
    assert_eq!(
        collect_tokens(&pick(&items, Some(Attribute::PreprocessorArgument))),
        list(&["-I", "inc", "-DX"])
    );
    assert_eq!(collect_tokens(&pick(&items, Some(Attribute::PassThrough))), list(&["-Wall", "-O2"]));
    assert!(collect_tokens(&pick(&items, None)).is_empty());
    assert!(collect_tokens(&Vec::new()).is_empty());
}

#[test]
fn language_of_prefers_the_last_explicit_language() {
    let c = valued("-x", Attribute::Language, "c", &["-x", "c"]);
    let cxx = valued("-x", Attribute::Language, "c++", &["-x", "c++"]);
    let bad = valued("-x", Attribute::Language, "ada", &["-x", "ada"]);
    let bare = flag("-x", Attribute::Language);
    assert_eq!(language_of(&vec![], "a.m"), Some(Language::ObjectiveC));
    assert_eq!(language_of(&vec![], "a.txt"), None);
    assert_eq!(language_of(&vec![&c], "a.m"), Some(Language::C));
    assert_eq!(language_of(&vec![&c, &cxx], "a.m"), Some(Language::Cxx));
    assert_eq!(language_of(&vec![&cxx, &c], "a.txt"), Some(Language::C));
    assert_eq!(language_of(&vec![&bad, &c], "a.c"), None);
    assert_eq!(language_of(&vec![&c, &bad], "a.c"), None);
    assert_eq!(language_of(&vec![&c, &bare], "a.c"), None);
}

#[test]
fn outputs_of_takes_the_last_output_flag() {
    let first = valued("-o", Attribute::Output, "a.o", &["-o", "a.o"]);
    let second = valued("-o", Attribute::Output, "b.o", &["-o", "b.o"]);
    let bare = flag("-o", Attribute::Output);
    assert_eq!(outputs_of(&vec![]).get(OBJECT), None);
    assert_eq!(outputs_of(&vec![&first]).get(OBJECT), Some(&"a.o".to_string()));
    assert_eq!(outputs_of(&vec![&first, &second]).get(OBJECT), Some(&"b.o".to_string()));
    assert_eq!(outputs_of(&vec![&first, &bare]).get(OBJECT), None);
    assert_eq!(outputs_of(&vec![&bare, &first]).get(OBJECT), Some(&"a.o".to_string()));
}

#[test]
fn interpret_recognizes_a_compilation() {
    match interpret(&sample()) {
        CompilerArguments::Recognized(parsed) => {
            assert_eq!(parsed.input, "main.c");
            assert_eq!(parsed.language, Language::C);
            assert_eq!(parsed.outputs.get(OBJECT), Some(&"main.o".to_string()));
            assert_eq!(parsed.preprocessor_args, list(&["-I", "inc", "-DX"]));
            assert_eq!(parsed.common_args, list(&["-Wall", "-O2"]));
        },
        other => panic!("{:?}", other),
    }
}

#[test]
fn interpret_decides_in_a_fixed_order() {
    let hard = flag("-E", Attribute::TooHard);
    let harder = flag("-M", Attribute::TooHard);
    let compile = flag("-c", Attribute::DoCompilation);
    let bad_language = valued("-x", Attribute::Language, "ada", &["-x", "ada"]);
    let rejected = |items: Vec<Argument>| match interpret(&items) {
        CompilerArguments::CannotCache(why) => why,
        other => panic!("{:?}", other),
    };
    assert_eq!(
        rejected(vec![operand("a.c"), operand("b.c"), harder.clone(), hard.clone()]),
        Rejection::TooHard("-M".to_string())
    );
    assert_eq!(rejected(vec![hard.clone()]), Rejection::TooHard("-E".to_string()));
    assert!(matches!(interpret(&vec![]), CompilerArguments::NotACompilation));
    assert!(matches!(
        interpret(&vec![operand("a.c"), operand("b.c"), bad_language.clone()]),
        CompilerArguments::NotACompilation
    ));
    assert_eq!(
        rejected(vec![compile.clone(), operand("a.c"), operand("b.c"), bad_language.clone()]),
        Rejection::MultipleInputs
    );
    assert_eq!(rejected(vec![compile.clone(), bad_language.clone()]), Rejection::NoInput);
    assert_eq!(
        rejected(vec![compile.clone(), operand("a.c"), bad_language]),
        Rejection::UnknownLanguage
    );
    assert_eq!(rejected(vec![compile, operand("a.unknown")]), Rejection::UnknownLanguage);
}

#[test]
fn append_and_copy_keep_order_and_content() {
    let mut out = list(&["a"]);
    append_strings(&mut out, &list(&["b", "c"]));
    append_strings(&mut out, &Vec::new());
    assert_eq!(out, list(&["a", "b", "c"]));
    let env = vec![("K".to_string(), "V".to_string()), ("K2".to_string(), String::new())];
    assert_eq!(copy_env(&env), env);
    assert!(copy_env(&Vec::new()).is_empty());
}

#[test]
fn invocations_of_the_two_phases_order_their_arguments() {
    let parsed = ParsedArguments {
        input: "a.c".to_string(),
        language: Language::C,
        outputs: Outputs::new(),
        preprocessor_args: list(&["-DX"]),
        common_args: list(&["-O2", "-g"]),
    };
    let env = vec![("HOME".to_string(), "/root".to_string())];
    let run = Invocation::for_preprocessing("cc", list(&["-E", "a.c"]), &parsed, "/tmp", &env);
    assert_eq!(
        run,
        Invocation {
            executable: "cc".to_string(),
            arguments: list(&["-E", "a.c", "-DX", "-O2", "-g"]),
            env_vars: env.clone(),
            cwd: "/tmp".to_string(),
            stdin: None,
        }
    );
    let run = Invocation::for_compiling("cc", list(&["-c", "a.c"]), &parsed, "/tmp", &env);
    assert_eq!(
        run,
        Invocation {
            executable: "cc".to_string(),
            arguments: list(&["-c", "a.c", "-O2", "-g"]),
            env_vars: env.clone(),
            cwd: "/tmp".to_string(),
            stdin: None,
        }
    );
    let run = Invocation::detached("cc", list(&["--version"]), "/tmp", &env);
    assert_eq!(
        run,
        Invocation {
            executable: "cc".to_string(),
            arguments: list(&["--version"]),
            env_vars: env,
            cwd: "/tmp".to_string(),
            stdin: None,
        }
    );
}
