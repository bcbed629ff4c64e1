//! From classified arguments to the outcome of parsing: which invocations
//! are compilations that the cache can handle, and what they ask for.

use vstd::prelude::*;
use crate::args::{
    argument_at, classification, select, Argument, ArgumentModel, Attribute, DescriptorModel,
};
use crate::compiler::{
    language_named, language_of_file, CompilerArguments, CompilerArgumentsModel, Language, OBJECT,
    Outputs, ParsedArguments, ParsedModel, Rejection, RejectionModel,
};
use crate::layers::{begins_argument, lemma_classified_where_begun};

verus! {

/// The test for an argument of a kind: a flag with a given attribute, or,
/// for `None`, an operand.
pub open spec fn of_kind(kind: Option<Attribute>) -> spec_fn(ArgumentModel) -> bool {
    |a: ArgumentModel| a.attribute() == kind
}

/// The arguments of a kind, in their order.
pub open spec fn selection(items: Seq<ArgumentModel>, kind: Option<Attribute>) -> Seq<ArgumentModel> {
    items.filter(of_kind(kind))
}

/// The flags with the given attribute, in their order.
pub open spec fn with_attribute(items: Seq<ArgumentModel>, attribute: Attribute) -> Seq<ArgumentModel> {
    selection(items, Some(attribute))
}

/// The operands, in their order.
pub open spec fn operands(items: Seq<ArgumentModel>) -> Seq<ArgumentModel> {
    selection(items, None)
}

/// The tokens of an argument.
pub open spec fn tokens_of() -> spec_fn(ArgumentModel) -> Seq<Seq<char>> {
    |a: ArgumentModel| a.tokens()
}

/// All the tokens of the given arguments, in their order.
pub open spec fn all_tokens(items: Seq<ArgumentModel>) -> Seq<Seq<char>> {
    items.map_values(tokens_of()).flatten()
}

/// The tokens of the flags with the given attribute, in their order.
pub open spec fn forwarded(items: Seq<ArgumentModel>, attribute: Attribute) -> Seq<Seq<char>> {
    all_tokens(with_attribute(items, attribute))
}

/// The language that a language flag selects, if it names one.
pub open spec fn selected_language(item: ArgumentModel) -> Option<Language> {
    match item.value() {
        Some(name) => language_named(name),
        None => None,
    }
}

/// The language of the source: the one that the last language flag selects,
/// provided that every language flag names a language; without such a flag,
/// the one that the extension of the input stands for.
pub open spec fn source_language(languages: Seq<ArgumentModel>, input: Seq<char>) -> Option<Language> {
    if languages.len() == 0 {
        language_of_file(input)
    } else if forall|i: int| 0 <= i < languages.len() ==> selected_language(#[trigger] languages[i]) is Some {
        selected_language(languages.last())
    } else {
        None
    }
}

/// The outputs that the output flags declare: the object file, where the
/// last of them has a value.
pub open spec fn declared_outputs(outputs: Seq<ArgumentModel>) -> Map<Seq<char>, Seq<char>> {
    if outputs.len() > 0 {
        match outputs.last().value() {
            Some(path) => Map::empty().insert(OBJECT@, path),
            None => Map::empty(),
        }
    } else {
        Map::empty()
    }
}

/// The outcome of parsing, from the classified arguments. In this order: a
/// too-hard flag anywhere rejects the invocation for the cache; without a
/// flag that asks for compilation it is no compilation; it must name exactly
/// one input, whose language must be known.
pub open spec fn interpretation(items: Seq<ArgumentModel>) -> CompilerArgumentsModel {
    let too_hard = with_attribute(items, Attribute::TooHard);
    let inputs = operands(items);
    if too_hard.len() > 0 {
        CompilerArgumentsModel::CannotCache(RejectionModel::TooHard(too_hard[0].spelling()))
    } else if with_attribute(items, Attribute::DoCompilation).len() == 0 {
        CompilerArgumentsModel::NotACompilation
    } else if inputs.len() > 1 {
        CompilerArgumentsModel::CannotCache(RejectionModel::MultipleInputs)
    } else if inputs.len() == 0 {
        CompilerArgumentsModel::CannotCache(RejectionModel::NoInput)
    } else {
        match source_language(with_attribute(items, Attribute::Language), inputs[0].spelling()) {
            None => CompilerArgumentsModel::CannotCache(RejectionModel::UnknownLanguage),
            Some(language) => CompilerArgumentsModel::Recognized(
                ParsedModel {
                    input: inputs[0].spelling(),
                    language,
                    outputs: declared_outputs(with_attribute(items, Attribute::Output)),
                    preprocessor_args: forwarded(items, Attribute::PreprocessorArgument),
                    common_args: forwarded(items, Attribute::PassThrough),
                },
            ),
        }
    }
}

/// The arguments of a kind, in their order.
pub fn pick<'a>(items: &'a Vec<Argument>, kind: Option<Attribute>) -> (chosen: Vec<&'a Argument>)
    ensures
        chosen.deep_view() == selection(items.deep_view(), kind),
{
    let ghost all = items.deep_view();
    let mut chosen: Vec<&Argument> = Vec::new();
    let mut i: usize = 0;
    proof {
        reveal(Seq::filter);
        assert(all.take(0) =~= Seq::<ArgumentModel>::empty());
        assert(chosen.deep_view() =~= Seq::<ArgumentModel>::empty());
    }
    while i < items.len()
        invariant
            i <= items.len(),
            all == items.deep_view(),
            chosen.deep_view() == selection(all.take(i as int), kind),
        decreases items.len() - i,
    {
        let item = &items[i];
        let keep = match (item.attribute(), kind) {
            (None, None) => true,
            (Some(a), Some(b)) => a == b,
            _ => false,
        };
        proof {
            assert(all.take(i + 1) =~= all.take(i as int).push(all[i as int]));
            all.take(i as int).lemma_filter_push(all[i as int], of_kind(kind));
        }
        if keep {
            let ghost before = chosen.deep_view();
            chosen.push(item);
            assert(chosen.deep_view() =~= before.push(item@));
        }
        i += 1;
    }
    assert(all.take(items.len() as int) =~= all);
    chosen
}

/// All the tokens of the given arguments, in their order.
pub fn collect_tokens(items: &Vec<&Argument>) -> (tokens: Vec<String>)
    ensures
        tokens.deep_view() == all_tokens(items.deep_view()),
{
    let ghost all = items.deep_view();
    let mut tokens: Vec<String> = Vec::new();
    let mut i: usize = 0;
    proof {
        assert(all.take(0).map_values(tokens_of()) =~= Seq::<Seq<Seq<char>>>::empty());
        assert(tokens.deep_view() =~= Seq::<Seq<char>>::empty());
    }
    while i < items.len()
        invariant
            i <= items.len(),
            all == items.deep_view(),
            tokens.deep_view() == all_tokens(all.take(i as int)),
        decreases items.len() - i,
    {
        proof {
            let done = all.take(i as int).map_values(tokens_of());
            assert(all.take(i + 1).map_values(tokens_of()) =~= done.push(all[i as int].tokens()));
            done.lemma_flatten_push(all[i as int].tokens());
        }
        items[i].forward_to(&mut tokens);
        i += 1;
    }
    assert(all.take(items.len() as int) =~= all);
    tokens
}

/// The language of the source, from the language flags and the input.
pub fn language_of(languages: &Vec<&Argument>, input: &str) -> (language: Option<Language>)
    ensures
        language == source_language(languages.deep_view(), input@),
{
    let n: usize = languages.len();
    if n == 0 {
        return Language::from_file_name(input);
    }
    let ghost all = languages.deep_view();
    let mut last: Option<Language> = None;
    let mut i: usize = 0;
    while i < n
        invariant
            i <= n,
            n == languages.len(),
            all == languages.deep_view(),
            forall|j: int| 0 <= j < i ==> selected_language(#[trigger] all[j]) is Some,
            i > 0 ==> last == selected_language(all[i - 1]),
        decreases n - i,
    {
        let named = match languages[i].value() {
            Some(name) => Language::from_name(name.as_str()),
            None => None,
        };
        if named.is_none() {
            assert(selected_language(all[i as int]) is None);
            return None;
        }
        last = named;
        i += 1;
    }
    last
}

/// The outputs that the output flags declare.
pub fn outputs_of(flags: &Vec<&Argument>) -> (outputs: Outputs)
    ensures
        outputs@ == declared_outputs(flags.deep_view()),
{
    let mut outputs = Outputs::new();
    let n: usize = flags.len();
    if n > 0 {
        match flags[n - 1].value() {
            Some(path) => {
                outputs.insert(OBJECT, path.clone());
            },
            None => {},
        }
    }
    outputs
}

/// The outcome of parsing, from the classified arguments.
pub fn interpret(items: &Vec<Argument>) -> (outcome: CompilerArguments)
    ensures
        outcome@ == interpretation(items.deep_view()),
{
    let too_hard = pick(items, Some(Attribute::TooHard));
    if too_hard.len() > 0 {
        return CompilerArguments::CannotCache(Rejection::TooHard(too_hard[0].spelling().clone()));
    }
    if pick(items, Some(Attribute::DoCompilation)).len() == 0 {
        return CompilerArguments::NotACompilation;
    }
    let inputs = pick(items, None);
    if inputs.len() > 1 {
        return CompilerArguments::CannotCache(Rejection::MultipleInputs);
    }
    if inputs.len() == 0 {
        return CompilerArguments::CannotCache(Rejection::NoInput);
    }
    let input = inputs[0].spelling();
    let languages = pick(items, Some(Attribute::Language));
    let language = match language_of(&languages, input.as_str()) {
        Some(language) => language,
        None => {
            return CompilerArguments::CannotCache(Rejection::UnknownLanguage);
        },
    };
    let outputs = outputs_of(&pick(items, Some(Attribute::Output)));
    let preprocessor_args = collect_tokens(&pick(items, Some(Attribute::PreprocessorArgument)));
    let common_args = collect_tokens(&pick(items, Some(Attribute::PassThrough)));
    CompilerArguments::Recognized(
        ParsedArguments { input: input.clone(), language, outputs, preprocessor_args, common_args },
    )
}

/// Each flag lands in the list of its attribute, at its place in the order:
/// what a command line passes on under an attribute is what its parts pass
/// on, one after the other.
pub proof fn lemma_forwarded_concat(a: Seq<ArgumentModel>, b: Seq<ArgumentModel>, attribute: Attribute)
    ensures
        forwarded(a + b, attribute) == forwarded(a, attribute) + forwarded(b, attribute),
{
    let fa = with_attribute(a, attribute);
    let fb = with_attribute(b, attribute);
    Seq::filter_distributes_over_add(a, b, of_kind(Some(attribute)));
    assert((fa + fb).map_values(tokens_of()) =~= fa.map_values(tokens_of()) + fb.map_values(
        tokens_of(),
    ));
    vstd::seq_lib::lemma_flatten_concat(fa.map_values(tokens_of()), fb.map_values(tokens_of()));
}

/// A flag is passed on under its own attribute and under no other: with the
/// preprocessor attribute its tokens make up the preprocessor arguments,
/// with the pass-through attribute the common arguments.
pub proof fn lemma_forwarded_single(item: ArgumentModel, attribute: Attribute)
    ensures
        forwarded(seq![item], attribute) == if item.has(attribute) {
            item.tokens()
        } else {
            Seq::<Seq<char>>::empty()
        },
{
    let none = Seq::<ArgumentModel>::empty();
    reveal(Seq::filter);
    assert(none.filter(of_kind(Some(attribute))) =~= none);
    none.lemma_filter_push(item, of_kind(Some(attribute)));
    assert(none.push(item) =~= seq![item]);
    if item.has(attribute) {
        let one = none.push(item).map_values(tokens_of());
        assert(one =~= seq![item.tokens()]);
        one.lemma_flatten_singleton();
    } else {
        assert(none.map_values(tokens_of()) =~= Seq::<Seq<Seq<char>>>::empty());
    }
}

/// Every flag lands in the list of its attribute, in its place: what is
/// passed on under an attribute is what the arguments before the flag pass
/// on, then the tokens of the flag if it has that attribute, then what the
/// arguments after it pass on.
pub proof fn lemma_lands_in_its_list(items: Seq<ArgumentModel>, i: int, attribute: Attribute)
    requires
        0 <= i < items.len(),
    ensures
        forwarded(items, attribute) == forwarded(items.take(i), attribute) + (if items[i].has(
            attribute,
        ) {
            items[i].tokens()
        } else {
            Seq::<Seq<char>>::empty()
        }) + forwarded(items.skip(i + 1), attribute),
{
    let before = items.take(i);
    let after = items.skip(i + 1);
    assert(items =~= before + seq![items[i]] + after);
    lemma_forwarded_concat(before + seq![items[i]], after, attribute);
    lemma_forwarded_concat(before, seq![items[i]], attribute);
    lemma_forwarded_single(items[i], attribute);
}

/// A too-hard flag is final: the invocation is rejected for the cache
/// exactly when one of its arguments is a too-hard flag, whatever else it
/// holds and in whatever order.
pub proof fn lemma_too_hard_is_final(items: Seq<ArgumentModel>)
    ensures
        (exists|i: int| 0 <= i < items.len() && (#[trigger] items[i]).has(Attribute::TooHard))
            <==> (interpretation(items) matches CompilerArgumentsModel::CannotCache(
            RejectionModel::TooHard(_),
        )),
{
    let pred = of_kind(Some(Attribute::TooHard));
    let found = with_attribute(items, Attribute::TooHard);
    if exists|i: int| 0 <= i < items.len() && (#[trigger] items[i]).has(Attribute::TooHard) {
        let i = choose|i: int| 0 <= i < items.len() && (#[trigger] items[i]).has(Attribute::TooHard);
        assert(pred(items[i]));
        items.lemma_filter_contains(pred, i);
        assert(found.len() > 0);
    }
    if found.len() > 0 {
        items.lemma_filter_pred(pred, 0);
        assert(found.contains(found[0]));
        items.lemma_filter_contains_rev(pred, found[0]);
        let i = choose|i: int| 0 <= i < items.len() && items[i] == found[0];
        assert(items[i].has(Attribute::TooHard));
    }
}

/// A too-hard flag anywhere on the command line rejects the invocation for
/// the cache: wherever an argument begins with a token for which the tables
/// give a too-hard descriptor, the outcome is that rejection, whatever
/// stands before or after it.
pub proof fn lemma_too_hard_anywhere(
    extension: Seq<DescriptorModel>,
    base: Seq<DescriptorModel>,
    arguments: Seq<Seq<char>>,
    at: int,
)
    requires
        begins_argument(extension, base, arguments, at),
        select(extension, base, arguments[at]) matches Some(d) && d.attribute == Attribute::TooHard,
    ensures
        interpretation(classification(extension, base, arguments)) matches CompilerArgumentsModel::CannotCache(
            RejectionModel::TooHard(_),
        ),
{
    let items = classification(extension, base, arguments);
    let item = argument_at(extension, base, arguments, at);
    lemma_classified_where_begun(extension, base, arguments, 0, at);
    let i = choose|i: int| 0 <= i < items.len() && items[i] == item;
    assert(items[i].has(Attribute::TooHard));
    lemma_too_hard_is_final(items);
}

} // verus!
