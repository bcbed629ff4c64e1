use compiler_dispatch::args::{
    classify, unmatched, Argument, ArgumentDescriptor, ArgumentTable, Arity, Attribute,
};

fn words(tokens: &[&str]) -> Vec<String> {
    tokens.iter().map(|t| t.to_string()).collect()
}

fn switch(flag: &str, attribute: Attribute, value: Option<&str>, tokens: &[&str]) -> Argument {
    Argument::Switch {
        flag: flag.to_string(),
        attribute,
        value: value.map(|v| v.to_string()),
        tokens: words(tokens),
    }
}

fn sample_table() -> ArgumentTable {
    ArgumentTable::new(vec![
        ArgumentDescriptor::flag("-c", Attribute::DoCompilation),
        ArgumentDescriptor::take_arg("-o", Arity::Separated, Attribute::Output),
        ArgumentDescriptor::take_arg("-D", Arity::Concatenated(None), Attribute::PreprocessorArgument),
        ArgumentDescriptor::take_arg("--mode", Arity::Concatenated(Some('=')), Attribute::PassThrough),
        ArgumentDescriptor::take_arg("--foo", Arity::EitherForm(Some('=')), Attribute::PassThrough),
        ArgumentDescriptor::take_arg("-I", Arity::EitherForm(None), Attribute::PreprocessorArgument),
    ])
}

#[test]
fn flag_matches_exact_token_only() {
    let d = ArgumentDescriptor::flag("-c", Attribute::DoCompilation);
    assert!(d.matches("-c"));
    assert!(!d.matches("-cc"));
    assert!(!d.matches("-"));
    assert!(!d.matches(""));
    assert!(!d.matches("c"));
}

#[test]
fn separated_matches_flag_token_only() {
    let d = ArgumentDescriptor::take_arg("-o", Arity::Separated, Attribute::Output);
    assert!(d.matches("-o"));
    assert!(!d.matches("-oout.o"));
    assert!(!d.matches("-o=out.o"));
}

#[test]
fn concatenated_without_separator_matches_any_continuation() {
    let d = ArgumentDescriptor::take_arg("-D", Arity::Concatenated(None), Attribute::PreprocessorArgument);
    assert!(d.matches("-D"));
    assert!(d.matches("-DFOO"));
    assert!(d.matches("-D=1"));
    assert!(!d.matches("-d"));
    assert!(!d.matches("-"));
}

#[test]
fn concatenated_with_separator_needs_the_separator() {
    let d = ArgumentDescriptor::take_arg("--mode", Arity::Concatenated(Some('=')), Attribute::PassThrough);
    assert!(d.matches("--mode"));
    assert!(d.matches("--mode=g++"));
    assert!(d.matches("--mode="));
    assert!(!d.matches("--modeg++"));
    assert!(!d.matches("--mod"));
    assert!(!d.matches("--mode:g++"));
}

#[test]
fn either_form_matches_both_shapes() {
    let d = ArgumentDescriptor::take_arg("--foo", Arity::EitherForm(Some('=')), Attribute::PassThrough);
    assert!(d.matches("--foo"));
    assert!(d.matches("--foo=bar"));
    assert!(!d.matches("--foobar"));
    let e = ArgumentDescriptor::take_arg("-I", Arity::EitherForm(None), Attribute::PreprocessorArgument);
    assert!(e.matches("-I"));
    assert!(e.matches("-Iinclude"));
}

#[test]
fn matching_is_by_characters_not_bytes() {
    let d = ArgumentDescriptor::take_arg("-é", Arity::Concatenated(Some('=')), Attribute::PassThrough);
    assert!(d.matches("-é=ü"));
    assert!(!d.matches("-e=ü"));
    let (item, took) = d.apply("-é=ü", None).unwrap();
    assert!(!took);
    assert_eq!(item, switch("-é", Attribute::PassThrough, Some("ü"), &["-é=ü"]));
}

#[test]
fn apply_gives_nothing_for_a_token_that_does_not_match() {
    let d = ArgumentDescriptor::take_arg("--mode", Arity::Concatenated(Some('=')), Attribute::PassThrough);
    let next = "next".to_string();
    assert_eq!(d.apply("--modeg++", Some(&next)), None);
    assert_eq!(d.apply("-c", None), None);
    let flag = ArgumentDescriptor::flag("-c", Attribute::DoCompilation);
    assert_eq!(flag.apply("-cc", None), None);
}

#[test]
fn apply_flag_without_value() {
    let d = ArgumentDescriptor::flag("-c", Attribute::DoCompilation);
    let next = "next".to_string();
    let (item, took) = d.apply("-c", Some(&next)).unwrap();
    assert!(!took);
    assert_eq!(item, switch("-c", Attribute::DoCompilation, None, &["-c"]));
}

#[test]
fn apply_separated_takes_the_next_token() {
    let d = ArgumentDescriptor::take_arg("-o", Arity::Separated, Attribute::Output);
    let next = "out.o".to_string();
    let (item, took) = d.apply("-o", Some(&next)).unwrap();
    assert!(took);
    assert_eq!(item, switch("-o", Attribute::Output, Some("out.o"), &["-o", "out.o"]));
}

#[test]
fn apply_separated_at_the_end_has_no_value() {
    let d = ArgumentDescriptor::take_arg("-o", Arity::Separated, Attribute::Output);
    let (item, took) = d.apply("-o", None).unwrap();
    assert!(!took);
    assert_eq!(item, switch("-o", Attribute::Output, None, &["-o"]));
}

#[test]
fn apply_concatenated_keeps_the_token_verbatim() {
    let d = ArgumentDescriptor::take_arg("--mode", Arity::Concatenated(Some('=')), Attribute::PassThrough);
    let next = "next".to_string();
    let (item, took) = d.apply("--mode=g++", Some(&next)).unwrap();
    assert!(!took);
    assert_eq!(item, switch("--mode", Attribute::PassThrough, Some("g++"), &["--mode=g++"]));
    let e = ArgumentDescriptor::take_arg("-D", Arity::Concatenated(None), Attribute::PreprocessorArgument);
    let (item, took) = e.apply("-DFOO=1", None).unwrap();
    assert!(!took);
    assert_eq!(item, switch("-D", Attribute::PreprocessorArgument, Some("FOO=1"), &["-DFOO=1"]));
}

#[test]
fn apply_concatenated_bare_flag_has_no_value() {
    let d = ArgumentDescriptor::take_arg("--mode", Arity::Concatenated(Some('=')), Attribute::PassThrough);
    let next = "next".to_string();
    let (item, took) = d.apply("--mode", Some(&next)).unwrap();
    assert!(!took);
    assert_eq!(item, switch("--mode", Attribute::PassThrough, None, &["--mode"]));
}

#[test]
fn apply_concatenated_empty_value_after_separator() {
    let d = ArgumentDescriptor::take_arg("--mode", Arity::Concatenated(Some('=')), Attribute::PassThrough);
    let (item, took) = d.apply("--mode=", None).unwrap();
    assert!(!took);
    assert_eq!(item, switch("--mode", Attribute::PassThrough, Some(""), &["--mode="]));
}

#[test]
fn either_form_gives_the_same_argument_for_both_shapes() {
    let d = ArgumentDescriptor::take_arg("--foo", Arity::EitherForm(Some('=')), Attribute::PassThrough);
    let bar = "bar".to_string();
    let (split, took_split) = d.apply("--foo", Some(&bar)).unwrap();
    let (fused, took_fused) = d.apply("--foo=bar", None).unwrap();
    assert!(took_split);
    assert!(!took_fused);
    assert_eq!(split, fused);
    assert_eq!(split, switch("--foo", Attribute::PassThrough, Some("bar"), &["--foo", "bar"]));
}

#[test]
fn either_form_command_lines_classify_alike() {
    let table = sample_table();
    let none = ArgumentTable::empty();
    let split = classify(&table, &none, &words(&["--foo", "bar", "-c", "-I", "inc", "x.c"]));
    let fused = classify(&table, &none, &words(&["--foo=bar", "-c", "-Iinc", "x.c"]));
    assert_eq!(split, fused);
    assert_eq!(
        split,
        vec![
            switch("--foo", Attribute::PassThrough, Some("bar"), &["--foo", "bar"]),
            switch("-c", Attribute::DoCompilation, None, &["-c"]),
            switch("-I", Attribute::PreprocessorArgument, Some("inc"), &["-I", "inc"]),
            Argument::Operand("x.c".to_string()),
        ]
    );
}

#[test]
fn unknown_tokens_default_to_pass_through_or_operand() {
    assert_eq!(unmatched("-Wall"), switch("-Wall", Attribute::PassThrough, None, &["-Wall"]));
    assert_eq!(unmatched("-"), switch("-", Attribute::PassThrough, None, &["-"]));
    assert_eq!(unmatched("main.c"), Argument::Operand("main.c".to_string()));
    assert_eq!(unmatched(""), Argument::Operand(String::new()));
    assert_eq!(unmatched("/c"), Argument::Operand("/c".to_string()));
}

#[test]
fn find_returns_the_first_match_in_table_order() {
    let table = ArgumentTable::new(vec![
        ArgumentDescriptor::take_arg("-f", Arity::Concatenated(None), Attribute::PassThrough),
        ArgumentDescriptor::flag("-foo", Attribute::TooHard),
    ]);
    assert_eq!(table.len(), 2);
    assert_eq!(table.find("-foo").map(|d| d.attribute), Some(Attribute::PassThrough));
    assert_eq!(table.find("-f").map(|d| d.flag.clone()), Some("-f".to_string()));
    assert!(table.find("-g").is_none());
    assert_eq!(table.get(1).map(|d| d.flag.as_str()), Some("-foo"));
    assert!(table.get(2).is_none());
    assert!(ArgumentTable::empty().find("-f").is_none());
    assert_eq!(ArgumentTable::empty().len(), 0);
}

#[test]
fn extension_table_overrides_base_table() {
    let base = ArgumentTable::new(vec![
        ArgumentDescriptor::flag("-shared", Attribute::PassThrough),
        ArgumentDescriptor::flag("-only-base", Attribute::PreprocessorArgument),
    ]);
    let extension = ArgumentTable::new(vec![ArgumentDescriptor::flag("-shared", Attribute::TooHard)]);
    let argv = words(&["-shared", "-only-base", "-neither"]);
    assert_eq!(
        classify(&extension, &base, &argv),
        vec![
            switch("-shared", Attribute::TooHard, None, &["-shared"]),
            switch("-only-base", Attribute::PreprocessorArgument, None, &["-only-base"]),
            switch("-neither", Attribute::PassThrough, None, &["-neither"]),
        ]
    );
    assert_eq!(
        classify(&ArgumentTable::empty(), &base, &argv),
        vec![
            switch("-shared", Attribute::PassThrough, None, &["-shared"]),
            switch("-only-base", Attribute::PreprocessorArgument, None, &["-only-base"]),
            switch("-neither", Attribute::PassThrough, None, &["-neither"]),
        ]
    );
}

#[test]
fn derived_table_reproduces_base_for_tokens_it_does_not_know() {
    let base = sample_table();
    let extension = ArgumentTable::new(vec![ArgumentDescriptor::flag("-extra", Attribute::TooHard)]);
    let argv = words(&["-c", "x.c", "-o", "x.o", "-DA", "--mode=fast", "-I", "inc", "-W"]);
    assert_eq!(classify(&extension, &base, &argv), classify(&ArgumentTable::empty(), &base, &argv));
}

#[test]
fn separated_flag_consumes_a_token_that_looks_like_a_flag() {
    let table = sample_table();
    let items = classify(&ArgumentTable::empty(), &table, &words(&["-o", "-c", "x.c"]));
    assert_eq!(
        items,
        vec![
            switch("-o", Attribute::Output, Some("-c"), &["-o", "-c"]),
            Argument::Operand("x.c".to_string()),
        ]
    );
}

#[test]
fn classify_empty_command_line() {
    let table = sample_table();
    assert_eq!(classify(&table, &table, &Vec::new()), Vec::<Argument>::new());
}

#[test]
fn value_taking_flag_as_last_token() {
    let table = sample_table();
    let items = classify(&ArgumentTable::empty(), &table, &words(&["x.c", "--foo"]));
    assert_eq!(
        items,
        vec![
            Argument::Operand("x.c".to_string()),
            switch("--foo", Attribute::PassThrough, None, &["--foo"]),
        ]
    );
}

#[test]
fn argument_accessors() {
    let item = switch("-o", Attribute::Output, Some("x.o"), &["-o", "x.o"]);
    assert_eq!(item.attribute(), Some(Attribute::Output));
    assert_eq!(item.spelling(), "-o");
    assert_eq!(item.value(), Some(&"x.o".to_string()));
    let mut out = vec!["first".to_string()];
    item.forward_to(&mut out);
    assert_eq!(out, words(&["first", "-o", "x.o"]));
    let operand = Argument::Operand("x.c".to_string());
    assert_eq!(operand.attribute(), None);
    assert_eq!(operand.spelling(), "x.c");
    assert_eq!(operand.value(), None);
    operand.forward_to(&mut out);
    assert_eq!(out, words(&["first", "-o", "x.o"]));
}
