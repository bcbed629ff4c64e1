//! What holds of lookup in two layers and of the classification built on
//! it: each descriptor answers for its own flag, both shapes of an
//! either-form flag mean the same, and a family that lays a table over a
//! base overrides the base where it says something and follows it where it
//! says nothing.

use vstd::prelude::*;
use crate::ambiguity::unambiguous;
use crate::args::{
    argument_at, classification, classify_from, find, first_match_from, following,
    lemma_first_match_from, select, width_at, ArgumentModel, DescriptorModel,
};

verus! {

/// Whether some descriptor of the table matches the token.
pub open spec fn knows(table: Seq<DescriptorModel>, token: Seq<char>) -> bool {
    exists|i: int| 0 <= i < table.len() && (#[trigger] table[i]).matches(token)
}

impl DescriptorModel {
    /// The token that carries `value` fused to the flag.
    pub open spec fn fused(self, value: Seq<char>) -> Seq<char> {
        self.flag + self.joint() + value
    }

    /// The argument that the flag makes without a value.
    pub open spec fn plain(self) -> ArgumentModel {
        ArgumentModel::Switch {
            flag: self.flag,
            attribute: self.attribute,
            value: None,
            tokens: seq![self.flag],
        }
    }

    /// The argument that the flag makes with a value, passed on by the
    /// given tokens.
    pub open spec fn valued(self, value: Seq<char>, tokens: Seq<Seq<char>>) -> ArgumentModel {
        ArgumentModel::Switch { flag: self.flag, attribute: self.attribute, value: Some(value), tokens }
    }
}

/// A table finds something exactly for the tokens it knows.
pub proof fn lemma_find_knows(table: Seq<DescriptorModel>, token: Seq<char>)
    ensures
        find(table, token) is Some <==> knows(table, token),
        find(table, token) matches Some(d) ==> d.matches(token),
{
    lemma_first_match_from(table, token, 0);
}

/// In an unambiguous table every descriptor answers for each token that it
/// matches: that descriptor is found, and no other.
pub proof fn lemma_find_own(table: Seq<DescriptorModel>, i: int, token: Seq<char>)
    requires
        unambiguous(table),
        0 <= i < table.len(),
        table[i].matches(token),
    ensures
        find(table, token) == Some(table[i]),
{
    lemma_first_match_from(table, token, 0);
    let k = first_match_from(table, token, 0)->0;
    if k < i {
        assert(table[k].matches(token) && table[i].matches(token));
    }
}

/// Layered lookup, stated by cases: a token that the extension table knows
/// is answered by the extension table, whatever the base table says of it;
/// any other token is answered as the base table alone would answer it.
pub proof fn lemma_select_layers(
    extension: Seq<DescriptorModel>,
    base: Seq<DescriptorModel>,
    token: Seq<char>,
)
    ensures
        knows(extension, token) ==> select(extension, base, token) == find(extension, token),
        !knows(extension, token) ==> select(extension, base, token) == find(base, token),
        select(extension, base, token) is None <==> !knows(extension, token) && !knows(base, token),
        select(Seq::empty(), base, token) == find(base, token),
{
    lemma_find_knows(extension, token);
    lemma_find_knows(base, token);
    lemma_find_knows(Seq::empty(), token);
}

/// The classification from a position on depends on the tokens from that
/// position on alone.
pub proof fn lemma_classify_suffix(
    extension: Seq<DescriptorModel>,
    base: Seq<DescriptorModel>,
    arguments: Seq<Seq<char>>,
    at: int,
)
    requires
        0 <= at <= arguments.len(),
    ensures
        classify_from(extension, base, arguments, at) == classification(extension, base, arguments.skip(at)),
    decreases arguments.len() - at,
{
    let rest = arguments.skip(at);
    if at < arguments.len() {
        assert(rest[0] == arguments[at]);
        assert(following(rest, 0) == following(arguments, at));
        let w = width_at(extension, base, arguments, at);
        assert(w == width_at(extension, base, rest, 0));
        assert(argument_at(extension, base, arguments, at) == argument_at(extension, base, rest, 0));
        if at + w <= arguments.len() {
            lemma_classify_suffix(extension, base, arguments, at + w);
            lemma_classify_suffix(extension, base, rest, w);
            assert(rest.skip(w) =~= arguments.skip(at + w));
        }
    }
}

/// A flag that stands alone and takes no following token makes one argument
/// without a value; what follows is classified by itself.
pub proof fn lemma_classify_plain(
    extension: Seq<DescriptorModel>,
    base: Seq<DescriptorModel>,
    d: DescriptorModel,
    rest: Seq<Seq<char>>,
)
    requires
        select(extension, base, d.flag) == Some(d),
        !d.takes_next() || rest.len() == 0,
    ensures
        classification(extension, base, seq![d.flag] + rest) == seq![d.plain()] + classification(
            extension,
            base,
            rest,
        ),
{
    let arguments = seq![d.flag] + rest;
    assert(arguments[0] == d.flag);
    assert(arguments.skip(1) =~= rest);
    lemma_classify_suffix(extension, base, arguments, 1);
}

/// A flag followed by its value in the next token makes one argument with
/// that value, passed on as the two tokens; what follows is classified by
/// itself.
pub proof fn lemma_classify_separated(
    extension: Seq<DescriptorModel>,
    base: Seq<DescriptorModel>,
    d: DescriptorModel,
    value: Seq<char>,
    rest: Seq<Seq<char>>,
)
    requires
        select(extension, base, d.flag) == Some(d),
        d.takes_next(),
    ensures
        classification(extension, base, seq![d.flag, value] + rest) == seq![
            d.valued(value, seq![d.flag, value]),
        ] + classification(extension, base, rest),
{
    let arguments = seq![d.flag, value] + rest;
    assert(arguments[0] == d.flag);
    assert(arguments[1] == value);
    assert(arguments.skip(2) =~= rest);
    lemma_classify_suffix(extension, base, arguments, 2);
}

/// A flag with its value fused into the same token makes one argument with
/// that value. An either-form flag is passed on as flag and value in two
/// tokens, a concatenated one as it came; what follows is classified by
/// itself.
pub proof fn lemma_classify_fused(
    extension: Seq<DescriptorModel>,
    base: Seq<DescriptorModel>,
    d: DescriptorModel,
    value: Seq<char>,
    rest: Seq<Seq<char>>,
)
    requires
        d.fuses(),
        (d.joint() + value).len() > 0,
        select(extension, base, d.fused(value)) == Some(d),
    ensures
        d.is_fused(d.fused(value)),
        classification(extension, base, seq![d.fused(value)] + rest) == seq![
            d.valued(
                value,
                if d.arity is EitherForm {
                    seq![d.flag, value]
                } else {
                    seq![d.fused(value)]
                },
            ),
        ] + classification(extension, base, rest),
{
    let token = d.fused(value);
    let arguments = seq![token] + rest;
    assert(token.len() == d.flag.len() + d.joint().len() + value.len());
    assert(token != d.flag);
    assert((d.flag + d.joint()) =~= token.subrange(0, (d.flag + d.joint()).len() as int));
    assert(d.fused_value(token) =~= value);
    assert(arguments[0] == token);
    assert(arguments.skip(1) =~= rest);
    lemma_classify_suffix(extension, base, arguments, 1);
}

/// Both shapes of an either-form flag are classified alike: at the head of
/// a command line the value in the next token and the value fused to the
/// flag give the same argument, and the same classification of the whole
/// command line, whatever follows.
pub proof fn lemma_either_form_normalizes(
    extension: Seq<DescriptorModel>,
    base: Seq<DescriptorModel>,
    d: DescriptorModel,
    value: Seq<char>,
    rest: Seq<Seq<char>>,
)
    requires
        d.arity is EitherForm,
        (d.joint() + value).len() > 0,
        select(extension, base, d.flag) == Some(d),
        select(extension, base, d.fused(value)) == Some(d),
    ensures
        classification(extension, base, seq![d.flag, value] + rest) == classification(
            extension,
            base,
            seq![d.fused(value)] + rest,
        ),
        classification(extension, base, seq![d.flag, value] + rest)[0] == d.valued(
            value,
            seq![d.flag, value],
        ),
{
    lemma_classify_separated(extension, base, d, value, rest);
    lemma_classify_fused(extension, base, d, value, rest);
}

/// Both shapes of an either-form flag of an unambiguous extension table
/// are classified alike at the head of a command line, whatever follows
/// and whatever the base table holds.
pub proof fn lemma_either_form_of_table(
    extension: Seq<DescriptorModel>,
    base: Seq<DescriptorModel>,
    i: int,
    value: Seq<char>,
    rest: Seq<Seq<char>>,
)
    requires
        unambiguous(extension),
        0 <= i < extension.len(),
        extension[i].arity is EitherForm,
        (extension[i].joint() + value).len() > 0,
    ensures
        classification(extension, base, seq![extension[i].flag, value] + rest) == classification(
            extension,
            base,
            seq![extension[i].fused(value)] + rest,
        ),
        classification(extension, base, seq![extension[i].flag, value] + rest)[0]
            == extension[i].valued(value, seq![extension[i].flag, value]),
{
    let d = extension[i];
    let token = d.fused(value);
    assert((d.flag + d.joint()) =~= token.subrange(0, (d.flag + d.joint()).len() as int));
    assert(d.is_fused(token));
    lemma_find_own(extension, i, d.flag);
    lemma_find_own(extension, i, token);
    lemma_either_form_normalizes(extension, base, d, value, rest);
}

/// Whether the two tables classify the flag of `d` as `d` declares it, in
/// the shape where it stands alone or with `value` in the next token.
pub open spec fn classifies_apart(
    extension: Seq<DescriptorModel>,
    base: Seq<DescriptorModel>,
    d: DescriptorModel,
    value: Seq<char>,
) -> bool {
    if d.takes_next() {
        classification(extension, base, seq![d.flag, value]) == seq![
            d.valued(value, seq![d.flag, value]),
        ]
    } else {
        classification(extension, base, seq![d.flag]) == seq![d.plain()]
    }
}

/// Whether the two tables classify the flag of `d` as `d` declares it, in
/// the shape where `value` is fused to it, if `d` declares that shape.
pub open spec fn classifies_fused(
    extension: Seq<DescriptorModel>,
    base: Seq<DescriptorModel>,
    d: DescriptorModel,
    value: Seq<char>,
) -> bool {
    d.fuses() && (d.joint() + value).len() > 0 ==> classification(
        extension,
        base,
        seq![d.fused(value)],
    ) == seq![
        d.valued(
            value,
            if d.arity is EitherForm {
                seq![d.flag, value]
            } else {
                seq![d.fused(value)]
            },
        ),
    ]
}

/// Every descriptor of an unambiguous extension table answers for its own
/// flag in each shape that it declares, whatever the base table holds: the
/// command line is classified to one argument with the descriptor's
/// attribute and the value given.
pub proof fn lemma_extension_descriptor_classifies(
    extension: Seq<DescriptorModel>,
    base: Seq<DescriptorModel>,
    i: int,
    value: Seq<char>,
)
    requires
        unambiguous(extension),
        0 <= i < extension.len(),
    ensures
        classifies_apart(extension, base, extension[i], value),
        classifies_fused(extension, base, extension[i], value),
{
    let d = extension[i];
    let none = Seq::<Seq<char>>::empty();
    assert(classification(extension, base, none) =~= Seq::<ArgumentModel>::empty());
    lemma_find_own(extension, i, d.flag);
    if !d.takes_next() {
        lemma_classify_plain(extension, base, d, none);
        assert(seq![d.flag] + none =~= seq![d.flag]);
    } else {
        lemma_classify_separated(extension, base, d, value, none);
        assert(seq![d.flag, value] + none =~= seq![d.flag, value]);
    }
    if d.fuses() && (d.joint() + value).len() > 0 {
        let token = d.fused(value);
        assert((d.flag + d.joint()) =~= token.subrange(0, (d.flag + d.joint()).len() as int));
        assert(d.is_fused(token));
        lemma_find_own(extension, i, token);
        lemma_classify_fused(extension, base, d, value, none);
        assert(seq![token] + none =~= seq![token]);
    }
}

/// Every descriptor of an unambiguous base table answers for its own flag in
/// each shape that it declares, as long as the extension table does not know
/// the tokens of that shape.
pub proof fn lemma_base_descriptor_classifies(
    extension: Seq<DescriptorModel>,
    base: Seq<DescriptorModel>,
    i: int,
    value: Seq<char>,
)
    requires
        unambiguous(base),
        0 <= i < base.len(),
    ensures
        !knows(extension, base[i].flag) ==> classifies_apart(extension, base, base[i], value),
        !knows(extension, base[i].fused(value)) ==> classifies_fused(extension, base, base[i], value),
{
    let d = base[i];
    let none = Seq::<Seq<char>>::empty();
    assert(classification(extension, base, none) =~= Seq::<ArgumentModel>::empty());
    lemma_find_own(base, i, d.flag);
    lemma_select_layers(extension, base, d.flag);
    if !knows(extension, d.flag) {
        if !d.takes_next() {
            lemma_classify_plain(extension, base, d, none);
            assert(seq![d.flag] + none =~= seq![d.flag]);
        } else {
            lemma_classify_separated(extension, base, d, value, none);
            assert(seq![d.flag, value] + none =~= seq![d.flag, value]);
        }
    }
    if d.fuses() && (d.joint() + value).len() > 0 && !knows(extension, d.fused(value)) {
        let token = d.fused(value);
        assert((d.flag + d.joint()) =~= token.subrange(0, (d.flag + d.joint()).len() as int));
        assert(d.is_fused(token));
        lemma_find_own(base, i, token);
        lemma_select_layers(extension, base, token);
        lemma_classify_fused(extension, base, d, value, none);
        assert(seq![token] + none =~= seq![token]);
    }
}

proof fn lemma_reproduces_base_from(
    extension: Seq<DescriptorModel>,
    base: Seq<DescriptorModel>,
    arguments: Seq<Seq<char>>,
    at: int,
)
    requires
        0 <= at,
        forall|k: int| 0 <= k < arguments.len() ==> !knows(extension, #[trigger] arguments[k]),
    ensures
        classify_from(extension, base, arguments, at) == classify_from(
            Seq::empty(),
            base,
            arguments,
            at,
        ),
    decreases arguments.len() - at,
{
    if at < arguments.len() {
        lemma_select_layers(extension, base, arguments[at]);
        lemma_select_layers(Seq::empty(), base, arguments[at]);
        lemma_reproduces_base_from(
            extension,
            base,
            arguments,
            at + width_at(extension, base, arguments, at),
        );
    }
}

/// A family that lays a table over a base classifies as the base alone does
/// every command line of which its own table knows no token.
pub proof fn lemma_derived_reproduces_base(
    extension: Seq<DescriptorModel>,
    base: Seq<DescriptorModel>,
    arguments: Seq<Seq<char>>,
)
    requires
        forall|k: int| 0 <= k < arguments.len() ==> !knows(extension, #[trigger] arguments[k]),
    ensures
        classification(extension, base, arguments) == classification(Seq::empty(), base, arguments),
{
    lemma_reproduces_base_from(extension, base, arguments, 0);
}

/// A family overrides the base for every token that its own table knows:
/// the argument at that position is the one that the family's descriptor
/// makes, whatever the base table says of the token.
pub proof fn lemma_derived_overrides_base(
    extension: Seq<DescriptorModel>,
    base: Seq<DescriptorModel>,
    arguments: Seq<Seq<char>>,
    at: int,
)
    requires
        0 <= at < arguments.len(),
        knows(extension, arguments[at]),
    ensures
        find(extension, arguments[at]) is Some,
        argument_at(extension, base, arguments, at) == find(extension, arguments[at])->0.apply(
            arguments[at],
            following(arguments, at),
        ),
{
    lemma_select_layers(extension, base, arguments[at]);
    lemma_find_knows(extension, arguments[at]);
}

/// Whether the classification that starts at `from` comes by position `at`
/// as the start of an argument.
pub open spec fn reaches(
    extension: Seq<DescriptorModel>,
    base: Seq<DescriptorModel>,
    arguments: Seq<Seq<char>>,
    from: int,
    at: int,
) -> bool
    decreases at - from,
{
    let next = from + width_at(extension, base, arguments, from);
    if from >= at {
        from == at
    } else if next > at {
        false
    } else {
        reaches(extension, base, arguments, next, at)
    }
}

/// Whether an argument begins at position `at` of the command line: the
/// token there is not the value of the flag before it.
pub open spec fn begins_argument(
    extension: Seq<DescriptorModel>,
    base: Seq<DescriptorModel>,
    arguments: Seq<Seq<char>>,
    at: int,
) -> bool {
    0 <= at < arguments.len() && reaches(extension, base, arguments, 0, at)
}

/// Where an argument begins, the classification holds the argument that
/// begins there.
pub proof fn lemma_classified_where_begun(
    extension: Seq<DescriptorModel>,
    base: Seq<DescriptorModel>,
    arguments: Seq<Seq<char>>,
    from: int,
    at: int,
)
    requires
        0 <= from <= at < arguments.len(),
        reaches(extension, base, arguments, from, at),
    ensures
        classify_from(extension, base, arguments, from).contains(
            argument_at(extension, base, arguments, at),
        ),
    decreases at - from,
{
    let here = seq![argument_at(extension, base, arguments, from)];
    let next = from + width_at(extension, base, arguments, from);
    let after = classify_from(extension, base, arguments, next);
    if from == at {
        assert((here + after)[0] == argument_at(extension, base, arguments, at));
    } else {
        lemma_classified_where_begun(extension, base, arguments, next, at);
        let k = choose|k: int|
            0 <= k < after.len() && after[k] == argument_at(extension, base, arguments, at);
        assert((here + after)[k + 1] == after[k]);
    }
}

/// Arguments begin one after another: the first token begins one, and where
/// one begins, the next begins right after its tokens.
pub proof fn lemma_begins_next(
    extension: Seq<DescriptorModel>,
    base: Seq<DescriptorModel>,
    arguments: Seq<Seq<char>>,
    from: int,
    at: int,
)
    requires
        0 <= from <= at,
        reaches(extension, base, arguments, from, at),
    ensures
        reaches(extension, base, arguments, from, from),
        reaches(
            extension,
            base,
            arguments,
            from,
            at + width_at(extension, base, arguments, at),
        ),
    decreases at - from,
{
    if from < at {
        lemma_begins_next(
            extension,
            base,
            arguments,
            from + width_at(extension, base, arguments, from),
            at,
        );
    } else {
        let next = at + width_at(extension, base, arguments, at);
        assert(reaches(extension, base, arguments, next, next));
    }
}

/// The arguments that begin at position `from` or after it and before
/// position `to`.
pub open spec fn classified_between(
    extension: Seq<DescriptorModel>,
    base: Seq<DescriptorModel>,
    arguments: Seq<Seq<char>>,
    from: int,
    to: int,
) -> Seq<ArgumentModel>
    decreases to - from,
{
    let next = from + width_at(extension, base, arguments, from);
    if from >= to {
        seq![]
    } else if next > to || next <= from {
        seq![argument_at(extension, base, arguments, from)]
    } else {
        seq![argument_at(extension, base, arguments, from)] + classified_between(
            extension,
            base,
            arguments,
            next,
            to,
        )
    }
}

/// Where an argument begins, the classification falls into two parts: the
/// arguments before that position, and the classification from there on.
pub proof fn lemma_classification_splits(
    extension: Seq<DescriptorModel>,
    base: Seq<DescriptorModel>,
    arguments: Seq<Seq<char>>,
    from: int,
    at: int,
)
    requires
        0 <= from <= at < arguments.len(),
        reaches(extension, base, arguments, from, at),
    ensures
        classify_from(extension, base, arguments, from) == classified_between(
            extension,
            base,
            arguments,
            from,
            at,
        ) + classify_from(extension, base, arguments, at),
    decreases at - from,
{
    let whole = classify_from(extension, base, arguments, from);
    if from < at {
        let next = from + width_at(extension, base, arguments, from);
        lemma_classification_splits(extension, base, arguments, next, at);
        let here = seq![argument_at(extension, base, arguments, from)];
        let between = classified_between(extension, base, arguments, next, at);
        let after = classify_from(extension, base, arguments, at);
        assert(here + (between + after) =~= (here + between) + after);
    } else {
        assert(Seq::<ArgumentModel>::empty() + whole =~= whole);
    }
}

/// What is classified before a position depends on the tokens before it
/// alone, provided that an argument begins there and that there is a token
/// there: two command lines that agree before the position have the same
/// arguments before it, and an argument begins there in both.
pub proof fn lemma_classified_before(
    extension: Seq<DescriptorModel>,
    base: Seq<DescriptorModel>,
    first: Seq<Seq<char>>,
    second: Seq<Seq<char>>,
    from: int,
    at: int,
)
    requires
        0 <= from <= at < first.len(),
        at < second.len(),
        forall|k: int| 0 <= k < at ==> first[k] == second[k],
        reaches(extension, base, first, from, at),
    ensures
        reaches(extension, base, second, from, at),
        classified_between(extension, base, first, from, at) == classified_between(
            extension,
            base,
            second,
            from,
            at,
        ),
    decreases at - from,
{
    if from < at {
        let next = from + width_at(extension, base, first, from);
        assert(first[from] == second[from]);
        assert(following(first, from) is Some);
        assert(following(second, from) is Some);
        if from + 1 < at {
            assert(first[from + 1] == second[from + 1]);
        }
        assert(width_at(extension, base, second, from) == width_at(extension, base, first, from));
        assert(argument_at(extension, base, second, from) == argument_at(
            extension,
            base,
            first,
            from,
        ));
        lemma_classified_before(extension, base, first, second, next, at);
    }
}

/// Both shapes of an either-form flag are classified alike wherever the
/// flag begins an argument, whatever stands before it and after it on the
/// command line: the two command lines have the same classification.
pub proof fn lemma_either_form_in_place(
    extension: Seq<DescriptorModel>,
    base: Seq<DescriptorModel>,
    d: DescriptorModel,
    before: Seq<Seq<char>>,
    value: Seq<char>,
    rest: Seq<Seq<char>>,
)
    requires
        d.arity is EitherForm,
        (d.joint() + value).len() > 0,
        select(extension, base, d.flag) == Some(d),
        select(extension, base, d.fused(value)) == Some(d),
        begins_argument(extension, base, before + seq![d.flag, value] + rest, before.len() as int),
    ensures
        begins_argument(extension, base, before + seq![d.fused(value)] + rest, before.len() as int),
        classification(extension, base, before + seq![d.flag, value] + rest) == classification(
            extension,
            base,
            before + seq![d.fused(value)] + rest,
        ),
{
    let at = before.len() as int;
    let split = before + seq![d.flag, value] + rest;
    let fused = before + seq![d.fused(value)] + rest;
    assert forall|k: int| 0 <= k < at implies split[k] == fused[k] by {
        assert(split[k] == before[k]);
        assert(fused[k] == before[k]);
    }
    lemma_classified_before(extension, base, split, fused, 0, at);
    lemma_classification_splits(extension, base, split, 0, at);
    lemma_classification_splits(extension, base, fused, 0, at);
    lemma_classify_suffix(extension, base, split, at);
    lemma_classify_suffix(extension, base, fused, at);
    assert(split.skip(at) =~= seq![d.flag, value] + rest);
    assert(fused.skip(at) =~= seq![d.fused(value)] + rest);
    lemma_either_form_normalizes(extension, base, d, value, rest);
}

/// Both shapes of an either-form flag of an unambiguous extension table
/// are classified alike wherever the flag begins an argument.
pub proof fn lemma_either_form_of_table_in_place(
    extension: Seq<DescriptorModel>,
    base: Seq<DescriptorModel>,
    i: int,
    before: Seq<Seq<char>>,
    value: Seq<char>,
    rest: Seq<Seq<char>>,
)
    requires
        unambiguous(extension),
        0 <= i < extension.len(),
        extension[i].arity is EitherForm,
        (extension[i].joint() + value).len() > 0,
        begins_argument(
            extension,
            base,
            before + seq![extension[i].flag, value] + rest,
            before.len() as int,
        ),
    ensures
        classification(extension, base, before + seq![extension[i].flag, value] + rest)
            == classification(extension, base, before + seq![extension[i].fused(value)] + rest),
{
    let d = extension[i];
    let token = d.fused(value);
    assert((d.flag + d.joint()) =~= token.subrange(0, (d.flag + d.joint()).len() as int));
    assert(d.is_fused(token));
    lemma_find_own(extension, i, d.flag);
    lemma_find_own(extension, i, token);
    lemma_either_form_in_place(extension, base, d, before, value, rest);
}

} // verus!
