//! Argument descriptors, argument tables and the classifier that matches the
//! tokens of a command line against them.

use vstd::prelude::*;
use vstd::string::*;
use crate::ambiguity::{lemma_unambiguous_by_spellings, unambiguous};
use crate::text::{same_text, starts_with, tail};

verus! {

/// What a recognized flag means for the cache.
#[derive(Clone, Copy, Debug, PartialEq, Eq, Structural)]
pub enum Attribute {
    /// Forwarded verbatim; has no bearing on cache safety.
    PassThrough,
    /// Must be handed to the preprocessing step.
    PreprocessorArgument,
    /// Cannot be represented by the cache: the invocation bypasses it.
    TooHard,
    /// Asks for a compilation of one source file to an object file.
    DoCompilation,
    /// Names the destination of the object file.
    Output,
    /// Selects the source language explicitly.
    Language,
}

/// How a flag takes its value.
#[derive(Clone, Copy, Debug, PartialEq, Eq)]
pub enum Arity {
    /// The flag stands alone.
    NoValue,
    /// The value is the token after the flag.
    Separated,
    /// The value is fused to the flag within one token, after the separator
    /// character if one is declared.
    Concatenated(Option<char>),
    /// Both shapes are accepted and mean the same.
    EitherForm(Option<char>),
}

/// One recognized flag: its spelling, how it takes a value, what it means.
#[derive(Clone, Debug, PartialEq, Eq)]
pub struct ArgumentDescriptor {
    pub flag: String,
    pub arity: Arity,
    pub attribute: Attribute,
}

/// The mathematical content of an [`ArgumentDescriptor`].
pub struct DescriptorModel {
    pub flag: Seq<char>,
    pub arity: Arity,
    pub attribute: Attribute,
}

impl View for ArgumentDescriptor {
    type V = DescriptorModel;

    open spec fn view(&self) -> DescriptorModel {
        DescriptorModel { flag: self.flag@, arity: self.arity, attribute: self.attribute }
    }
}

impl DeepView for ArgumentDescriptor {
    type V = DescriptorModel;

    open spec fn deep_view(&self) -> DescriptorModel {
        self@
    }
}

impl DescriptorModel {
    /// A flag that takes no value.
    pub open spec fn flag(spelling: &str, attribute: Attribute) -> DescriptorModel {
        DescriptorModel { flag: spelling@, arity: Arity::NoValue, attribute }
    }

    /// A flag that takes a value in the given way.
    pub open spec fn take_arg(spelling: &str, arity: Arity, attribute: Attribute) -> DescriptorModel {
        DescriptorModel { flag: spelling@, arity, attribute }
    }

    /// Whether a value may follow the flag as the next token.
    pub open spec fn takes_next(self) -> bool {
        self.arity is Separated || self.arity is EitherForm
    }

    /// Whether a value may be fused to the flag.
    pub open spec fn fuses(self) -> bool {
        self.arity is Concatenated || self.arity is EitherForm
    }

    /// What stands between the flag and a fused value: the declared
    /// separator, or nothing.
    pub open spec fn joint(self) -> Seq<char> {
        match self.arity {
            Arity::Concatenated(Some(c)) => seq![c],
            Arity::EitherForm(Some(c)) => seq![c],
            _ => seq![],
        }
    }

    /// The token is the flag followed, after the joint, by a value in the
    /// same token.
    pub open spec fn is_fused(self, token: Seq<char>) -> bool {
        &&& self.fuses()
        &&& token.len() > self.flag.len()
        &&& (self.flag + self.joint()).is_prefix_of(token)
    }

    /// The descriptor recognizes the token: it is the bare flag, or the flag
    /// with a fused value.
    pub open spec fn matches(self, token: Seq<char>) -> bool {
        token == self.flag || self.is_fused(token)
    }

    /// The value that a fused token carries.
    pub open spec fn fused_value(self, token: Seq<char>) -> Seq<char> {
        token.skip((self.flag.len() + self.joint().len()) as int)
    }

    /// Whether the descriptor, met as `token`, takes the following token as
    /// its value.
    pub open spec fn consumes_next(self, token: Seq<char>, next: Option<Seq<char>>) -> bool {
        token == self.flag && self.takes_next() && next is Some
    }

    /// The classified argument that the descriptor makes of a token it
    /// matches. Both shapes of an either-form flag give the same argument,
    /// passed on as flag and value in two tokens; a concatenated flag is
    /// passed on as it came.
    pub open spec fn apply(self, token: Seq<char>, next: Option<Seq<char>>) -> ArgumentModel {
        if token == self.flag {
            if self.consumes_next(token, next) {
                ArgumentModel::Switch {
                    flag: self.flag,
                    attribute: self.attribute,
                    value: next,
                    tokens: seq![self.flag, next->0],
                }
            } else {
                ArgumentModel::Switch {
                    flag: self.flag,
                    attribute: self.attribute,
                    value: None,
                    tokens: seq![self.flag],
                }
            }
        } else {
            let value = self.fused_value(token);
            ArgumentModel::Switch {
                flag: self.flag,
                attribute: self.attribute,
                value: Some(value),
                tokens: if self.arity is EitherForm {
                    seq![self.flag, value]
                } else {
                    seq![token]
                },
            }
        }
    }
}

/// One classified argument of a command line.
#[derive(Clone, Debug, PartialEq, Eq)]
pub enum Argument {
    /// A positional token: a candidate input file.
    Operand(String),
    /// A flag, with the value it took and the tokens by which it is passed on.
    Switch { flag: String, attribute: Attribute, value: Option<String>, tokens: Vec<String> },
}

/// The mathematical content of an [`Argument`].
pub enum ArgumentModel {
    Operand(Seq<char>),
    Switch { flag: Seq<char>, attribute: Attribute, value: Option<Seq<char>>, tokens: Seq<Seq<char>> },
}

impl View for Argument {
    type V = ArgumentModel;

    open spec fn view(&self) -> ArgumentModel {
        match self {
            Argument::Operand(token) => ArgumentModel::Operand(token@),
            Argument::Switch { flag, attribute, value, tokens } => ArgumentModel::Switch {
                flag: flag@,
                attribute: *attribute,
                value: value.deep_view(),
                tokens: tokens.deep_view(),
            },
        }
    }
}

impl DeepView for Argument {
    type V = ArgumentModel;

    open spec fn deep_view(&self) -> ArgumentModel {
        self@
    }
}

impl ArgumentModel {
    /// The attribute of a flag; `None` for an operand.
    pub open spec fn attribute(self) -> Option<Attribute> {
        match self {
            ArgumentModel::Operand(_) => None,
            ArgumentModel::Switch { attribute, .. } => Some(attribute),
        }
    }

    /// Whether this is a flag with the given attribute.
    pub open spec fn has(self, attribute: Attribute) -> bool {
        self.attribute() == Some(attribute)
    }

    /// The tokens by which a flag is passed on; none for an operand.
    pub open spec fn tokens(self) -> Seq<Seq<char>> {
        match self {
            ArgumentModel::Operand(_) => seq![],
            ArgumentModel::Switch { tokens, .. } => tokens,
        }
    }

    /// The spelling of a flag; the token of an operand.
    pub open spec fn spelling(self) -> Seq<char> {
        match self {
            ArgumentModel::Operand(token) => token,
            ArgumentModel::Switch { flag, .. } => flag,
        }
    }

    /// The value that a flag took.
    pub open spec fn value(self) -> Option<Seq<char>> {
        match self {
            ArgumentModel::Operand(_) => None,
            ArgumentModel::Switch { value, .. } => value,
        }
    }
}

impl Argument {
    /// The attribute of a flag; `None` for an operand.
    pub fn attribute(&self) -> (r: Option<Attribute>)
        ensures
            r == self@.attribute(),
    {
        match self {
            Argument::Operand(_) => None,
            Argument::Switch { attribute, .. } => Some(*attribute),
        }
    }

    /// The spelling of a flag; the token of an operand.
    pub fn spelling(&self) -> (r: &String)
        ensures
            r@ == self@.spelling(),
    {
        match self {
            Argument::Operand(token) => token,
            Argument::Switch { flag, .. } => flag,
        }
    }

    /// The value that a flag took.
    pub fn value(&self) -> (r: Option<&String>)
        ensures
            r.deep_view() == self@.value(),
    {
        match self {
            Argument::Operand(_) => None,
            Argument::Switch { value, .. } => value.as_ref(),
        }
    }

    /// The tokens by which a flag is passed on, appended to `out`.
    pub fn forward_to(&self, out: &mut Vec<String>)
        ensures
            final(out).deep_view() == old(out).deep_view() + self@.tokens(),
    {
        match self {
            Argument::Operand(_) => {
                assert(out.deep_view() + self@.tokens() =~= out.deep_view());
            },
            Argument::Switch { tokens, .. } => {
                let ghost before = out.deep_view();
                let mut i: usize = 0;
                assert(tokens.deep_view().take(0) =~= Seq::<Seq<char>>::empty());
                assert(before + Seq::<Seq<char>>::empty() =~= before);
                while i < tokens.len()
                    invariant
                        i <= tokens.len(),
                        out.deep_view() == before + tokens.deep_view().take(i as int),
                    decreases tokens.len() - i,
                {
                    let ghost so_far = out.deep_view();
                    out.push(tokens[i].clone());
                    assert(out.deep_view() =~= so_far.push(tokens[i as int]@));
                    assert(tokens.deep_view().take(i + 1) =~= tokens.deep_view().take(i as int).push(
                        tokens[i as int]@,
                    ));
                    i += 1;
                }
                assert(tokens.deep_view().take(tokens.len() as int) =~= tokens.deep_view());
            },
        }
    }
}

/// What becomes of a token that no descriptor matches: a token that begins
/// with a dash is an unknown flag and is passed through; any other token is
/// an operand.
pub open spec fn unrecognized(token: Seq<char>) -> ArgumentModel {
    if token.len() > 0 && token[0] == '-' {
        ArgumentModel::Switch {
            flag: token,
            attribute: Attribute::PassThrough,
            value: None,
            tokens: seq![token],
        }
    } else {
        ArgumentModel::Operand(token)
    }
}

/// The index of the first descriptor at or after `from` that matches the
/// token.
pub open spec fn first_match_from(table: Seq<DescriptorModel>, token: Seq<char>, from: int) -> Option<int>
    decreases table.len() - from,
{
    if from < 0 || from >= table.len() {
        None
    } else if table[from].matches(token) {
        Some(from)
    } else {
        first_match_from(table, token, from + 1)
    }
}

/// What the first match is: it matches, nothing before it does; and where
/// there is none, nothing matches.
pub proof fn lemma_first_match_from(table: Seq<DescriptorModel>, token: Seq<char>, from: int)
    requires
        0 <= from,
    ensures
        match first_match_from(table, token, from) {
            Some(i) => {
                &&& from <= i < table.len()
                &&& table[i].matches(token)
                &&& forall|j: int| from <= j < i ==> !(#[trigger] table[j]).matches(token)
            },
            None => forall|j: int| from <= j < table.len() ==> !(#[trigger] table[j]).matches(token),
        },
    decreases table.len() - from,
{
    if from < table.len() && !table[from].matches(token) {
        lemma_first_match_from(table, token, from + 1);
    }
}

/// The descriptor that a table gives for a token: the first that matches.
pub open spec fn find(table: Seq<DescriptorModel>, token: Seq<char>) -> Option<DescriptorModel> {
    match first_match_from(table, token, 0) {
        Some(i) => Some(table[i]),
        None => None,
    }
}

/// Lookup in two layers: the extension table first, the base table second.
pub open spec fn select(
    extension: Seq<DescriptorModel>,
    base: Seq<DescriptorModel>,
    token: Seq<char>,
) -> Option<DescriptorModel> {
    match find(extension, token) {
        Some(d) => Some(d),
        None => find(base, token),
    }
}

/// The token that follows position `at`, if there is one.
pub open spec fn following(arguments: Seq<Seq<char>>, at: int) -> Option<Seq<char>> {
    if at + 1 < arguments.len() {
        Some(arguments[at + 1])
    } else {
        None
    }
}

/// The argument that starts at position `at`.
pub open spec fn argument_at(
    extension: Seq<DescriptorModel>,
    base: Seq<DescriptorModel>,
    arguments: Seq<Seq<char>>,
    at: int,
) -> ArgumentModel {
    match select(extension, base, arguments[at]) {
        Some(d) => d.apply(arguments[at], following(arguments, at)),
        None => unrecognized(arguments[at]),
    }
}

/// How many tokens the argument that starts at position `at` takes up.
pub open spec fn width_at(
    extension: Seq<DescriptorModel>,
    base: Seq<DescriptorModel>,
    arguments: Seq<Seq<char>>,
    at: int,
) -> int {
    match select(extension, base, arguments[at]) {
        Some(d) => if d.consumes_next(arguments[at], following(arguments, at)) {
            2
        } else {
            1
        },
        None => 1,
    }
}

/// The classified arguments of the tokens from position `at` on.
pub open spec fn classify_from(
    extension: Seq<DescriptorModel>,
    base: Seq<DescriptorModel>,
    arguments: Seq<Seq<char>>,
    at: int,
) -> Seq<ArgumentModel>
    decreases arguments.len() - at,
{
    if at < 0 || at >= arguments.len() {
        seq![]
    } else {
        seq![argument_at(extension, base, arguments, at)] + classify_from(
            extension,
            base,
            arguments,
            at + width_at(extension, base, arguments, at),
        )
    }
}

/// The classification of a whole command line against two layered tables.
pub open spec fn classification(
    extension: Seq<DescriptorModel>,
    base: Seq<DescriptorModel>,
    arguments: Seq<Seq<char>>,
) -> Seq<ArgumentModel> {
    classify_from(extension, base, arguments, 0)
}

impl ArgumentDescriptor {
    /// A flag that takes no value.
    pub fn flag(spelling: &str, attribute: Attribute) -> (d: ArgumentDescriptor)
        ensures
            d@ == DescriptorModel::flag(spelling, attribute),
    {
        ArgumentDescriptor { flag: String::from_str(spelling), arity: Arity::NoValue, attribute }
    }

    /// A flag that takes a value in the given way.
    pub fn take_arg(spelling: &str, arity: Arity, attribute: Attribute) -> (d: ArgumentDescriptor)
        ensures
            d@ == DescriptorModel::take_arg(spelling, arity, attribute),
    {
        ArgumentDescriptor { flag: String::from_str(spelling), arity, attribute }
    }

    /// Whether the descriptor recognizes the token.
    pub fn matches(&self, token: &str) -> (b: bool)
        ensures
            b == self@.matches(token@),
    {
        let flag = self.flag.as_str();
        if same_text(token, flag) {
            return true;
        }
        let separator = match self.arity {
            Arity::Concatenated(s) => s,
            Arity::EitherForm(s) => s,
            _ => {
                return false;
            },
        };
        if !starts_with(token, flag) {
            proof {
                if (self@.flag + self@.joint()).is_prefix_of(token@) {
                    assert(self@.flag =~= token@.subrange(0, self@.flag.len() as int));
                }
            }
            return false;
        }
        let n: usize = flag.unicode_len();
        let m: usize = token.unicode_len();
        assert(m > n) by {
            if m == n {
                assert(token@.subrange(0, n as int) =~= token@);
            }
        }
        match separator {
            None => {
                assert(self@.flag + self@.joint() =~= self@.flag);
                true
            },
            Some(c) => {
                let found = token.get_char(n);
                proof {
                    let joined = self@.flag + seq![c];
                    if found == c {
                        assert(joined =~= token@.subrange(0, joined.len() as int));
                    } else if joined.is_prefix_of(token@) {
                        assert(token@.subrange(0, joined.len() as int)[n as int] == joined[n as int]);
                    }
                }
                found == c
            },
        }
    }

    /// The classified argument that the descriptor makes of a token, and
    /// whether it took the following token as its value; nothing for a token
    /// that it does not match.
    pub fn apply(&self, token: &str, next: Option<&String>) -> (r: Option<(Argument, bool)>)
        ensures
            r is Some <==> self@.matches(token@),
            r matches Some((argument, took_next)) ==> {
                &&& argument@ == self@.apply(token@, next.deep_view())
                &&& took_next == self@.consumes_next(token@, next.deep_view())
            },
    {
        if !self.matches(token) {
            return None;
        }
        let flag = self.flag.as_str();
        if same_text(token, flag) {
            let takes_next = match self.arity {
                Arity::Separated => true,
                Arity::EitherForm(_) => true,
                _ => false,
            };
            match next {
                Some(value) => {
                    if takes_next {
                        let mut tokens: Vec<String> = Vec::new();
                        tokens.push(self.flag.clone());
                        tokens.push(value.clone());
                        assert(tokens.deep_view() =~= seq![self@.flag, value@]);
                        return Some(
                            (
                                Argument::Switch {
                                    flag: self.flag.clone(),
                                    attribute: self.attribute,
                                    value: Some(value.clone()),
                                    tokens,
                                },
                                true,
                            ),
                        );
                    }
                },
                None => {},
            }
            let mut tokens: Vec<String> = Vec::new();
            tokens.push(self.flag.clone());
            assert(tokens.deep_view() =~= seq![self@.flag]);
            return Some(
                (
                    Argument::Switch {
                        flag: self.flag.clone(),
                        attribute: self.attribute,
                        value: None,
                        tokens,
                    },
                    false,
                ),
            );
        }
        let n: usize = flag.unicode_len();
        let (width, either): (usize, bool) = match self.arity {
            Arity::Concatenated(Some(_)) => (1, false),
            Arity::EitherForm(Some(_)) => (1, true),
            Arity::EitherForm(None) => (0, true),
            _ => (0, false),
        };
        let m: usize = token.unicode_len();
        assert(width == self@.joint().len());
        assert(n + width <= m) by {
            assert((self@.flag + self@.joint()).len() == n + width);
        }
        let value = tail(token, n + width);
        let mut tokens: Vec<String> = Vec::new();
        if either {
            tokens.push(self.flag.clone());
            tokens.push(value.clone());
            assert(tokens.deep_view() =~= seq![self@.flag, value@]);
        } else {
            tokens.push(String::from_str(token));
            assert(tokens.deep_view() =~= seq![token@]);
        }
        Some(
            (
                Argument::Switch {
                    flag: self.flag.clone(),
                    attribute: self.attribute,
                    value: Some(value),
                    tokens,
                },
                false,
            ),
        )
    }
}

/// An ordered table of descriptors. It cannot be changed once it is built, so
/// it can be shared freely.
#[derive(Clone, Debug)]
pub struct ArgumentTable {
    entries: Vec<ArgumentDescriptor>,
}

impl View for ArgumentTable {
    type V = Seq<DescriptorModel>;

    closed spec fn view(&self) -> Seq<DescriptorModel> {
        self.entries.deep_view()
    }
}

impl ArgumentTable {
    /// The table of the given descriptors, in their order.
    pub fn new(entries: Vec<ArgumentDescriptor>) -> (table: ArgumentTable)
        ensures
            table@ == entries.deep_view(),
    {
        ArgumentTable { entries }
    }

    /// The table that recognizes nothing.
    pub fn empty() -> (table: ArgumentTable)
        ensures
            table@ == Seq::<DescriptorModel>::empty(),
    {
        let entries: Vec<ArgumentDescriptor> = Vec::new();
        assert(entries.deep_view() =~= Seq::<DescriptorModel>::empty());
        ArgumentTable { entries }
    }

    /// The number of descriptors.
    pub fn len(&self) -> (n: usize)
        ensures
            n == self@.len(),
    {
        self.entries.len()
    }

    /// The descriptor at position `i`, if the table has that many.
    pub fn get(&self, i: usize) -> (d: Option<&ArgumentDescriptor>)
        ensures
            d.deep_view() == if i < self@.len() {
                Some(self@[i as int])
            } else {
                None
            },
    {
        if i < self.entries.len() {
            Some(&self.entries[i])
        } else {
            None
        }
    }

    /// The first descriptor that matches the token.
    pub fn find(&self, token: &str) -> (found: Option<&ArgumentDescriptor>)
        ensures
            found.deep_view() == find(self@, token@),
            found matches Some(d) ==> d@.matches(token@),
    {
        let n: usize = self.entries.len();
        let mut i: usize = 0;
        while i < n
            invariant
                i <= n,
                n == self.entries.len(),
                first_match_from(self@, token@, 0) == first_match_from(self@, token@, i as int),
            decreases n - i,
        {
            if self.entries[i].matches(token) {
                return Some(&self.entries[i]);
            }
            i += 1;
        }
        None
    }

    /// Whether no token is matched by two descriptors of the table.
    pub fn is_unambiguous(&self) -> (b: bool)
        ensures
            b == unambiguous(self@),
    {
        let n: usize = self.entries.len();
        let mut i: usize = 0;
        proof {
            lemma_unambiguous_by_spellings(self@);
        }
        while i < n
            invariant
                i <= n,
                n == self.entries.len(),
                forall|k: int, j: int|
                    0 <= k < i && 0 <= j < n && k != j ==> !(#[trigger] self@[k]).matches(
                        (#[trigger] self@[j]).flag,
                    ),
            decreases n - i,
        {
            let mut j: usize = 0;
            while j < n
                invariant
                    i < n,
                    j <= n,
                    n == self.entries.len(),
                    forall|l: int| 0 <= l < j && i != l ==> !self@[i as int].matches((#[trigger] self@[l]).flag),
                decreases n - j,
            {
                if i != j && self.entries[i].matches(self.entries[j].flag.as_str()) {
                    proof {
                        lemma_unambiguous_by_spellings(self@);
                        assert(self@[i as int].matches(self@[j as int].flag));
                    }
                    return false;
                }
                j += 1;
            }
            i += 1;
        }
        true
    }
}

/// The argument that an unmatched token becomes.
pub fn unmatched(token: &str) -> (argument: Argument)
    ensures
        argument@ == unrecognized(token@),
{
    if token.unicode_len() > 0 && token.get_char(0) == '-' {
        let mut tokens: Vec<String> = Vec::new();
        tokens.push(String::from_str(token));
        assert(tokens.deep_view() =~= seq![token@]);
        Argument::Switch {
            flag: String::from_str(token),
            attribute: Attribute::PassThrough,
            value: None,
            tokens,
        }
    } else {
        Argument::Operand(String::from_str(token))
    }
}

/// Classifies a command line against two layered tables: each token is looked
/// up in the extension table first, in the base table second, and defaults to
/// a passed-through flag or an operand when neither knows it.
pub fn classify(extension: &ArgumentTable, base: &ArgumentTable, arguments: &Vec<String>) -> (items:
    Vec<Argument>)
    ensures
        items.deep_view() == classification(extension@, base@, arguments.deep_view()),
{
    let ghost argv = arguments.deep_view();
    let n: usize = arguments.len();
    let mut items: Vec<Argument> = Vec::new();
    let mut at: usize = 0;
    assert(items.deep_view() =~= Seq::<ArgumentModel>::empty());
    while at < n
        invariant
            at <= n,
            n == arguments.len(),
            argv == arguments.deep_view(),
            items.deep_view() + classify_from(extension@, base@, argv, at as int) == classify_from(
                extension@,
                base@,
                argv,
                0,
            ),
        decreases n - at,
    {
        let token = arguments[at].as_str();
        let next: Option<&String> = if at + 1 < n {
            Some(&arguments[at + 1])
        } else {
            None
        };
        assert(token@ == argv[at as int]);
        assert(next.deep_view() == following(argv, at as int));
        let recognized = match extension.find(token) {
            Some(d) => d.apply(token, next),
            None => match base.find(token) {
                Some(d) => d.apply(token, next),
                None => None,
            },
        };
        let (item, took_next) = match recognized {
            Some(known) => known,
            None => (unmatched(token), false),
        };
        assert(item@ == argument_at(extension@, base@, argv, at as int));
        assert(width_at(extension@, base@, argv, at as int) == if took_next {
            2int
        } else {
            1int
        });
        let ghost before = items.deep_view();
        items.push(item);
        assert(items.deep_view() =~= before.push(item@));
        proof {
            let rest = classify_from(
                extension@,
                base@,
                argv,
                at + width_at(extension@, base@, argv, at as int),
            );
            assert(before.push(item@) + rest =~= before + (seq![item@] + rest));
        }
        at = if took_next {
            at + 2
        } else {
            at + 1
        };
    }
    assert(items.deep_view() + Seq::<ArgumentModel>::empty() =~= items.deep_view());
    items
}

} // verus!
