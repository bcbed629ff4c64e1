//! When a table is free of ambiguity, and how to tell: by a check at run
//! time, or for a table that is written down, once and for all by proof.

use vstd::prelude::*;
use crate::args::DescriptorModel;

verus! {

/// A table is unambiguous when no token is matched by two of its
/// descriptors. Then no two of them share a spelling, and the order of the
/// table has no bearing on what is found.
pub open spec fn unambiguous(table: Seq<DescriptorModel>) -> bool {
    forall|i: int, j: int, token: Seq<char>|
        0 <= i < j < table.len() ==> !(#[trigger] table[i].matches(token) && #[trigger] table[j].matches(
            token,
        ))
}

/// Two descriptors share a token exactly when one of them matches the
/// spelling of the other.
pub proof fn lemma_shared_token(a: DescriptorModel, b: DescriptorModel)
    ensures
        (exists|token: Seq<char>| a.matches(token) && b.matches(token)) <==> (a.matches(b.flag)
            || b.matches(a.flag)),
{
    if a.matches(b.flag) {
        assert(a.matches(b.flag) && b.matches(b.flag));
    }
    if b.matches(a.flag) {
        assert(a.matches(a.flag) && b.matches(a.flag));
    }
    if exists|token: Seq<char>| a.matches(token) && b.matches(token) {
        let token = choose|token: Seq<char>| a.matches(token) && b.matches(token);
        if token != a.flag && token != b.flag {
            if a.flag.len() <= b.flag.len() {
                lemma_fused_both(a, b, token);
            } else {
                lemma_fused_both(b, a, token);
            }
        }
    }
}

/// Of two descriptors to which one token is fused, the one with the shorter
/// spelling matches the spelling of the other.
proof fn lemma_fused_both(a: DescriptorModel, b: DescriptorModel, token: Seq<char>)
    requires
        a.is_fused(token),
        b.is_fused(token),
        a.flag.len() <= b.flag.len(),
    ensures
        a.matches(b.flag),
{
    let pa = a.flag + a.joint();
    let pb = b.flag + b.joint();
    assert(pa =~= token.subrange(0, pa.len() as int));
    assert(pb =~= token.subrange(0, pb.len() as int));
    assert(b.flag =~= token.subrange(0, b.flag.len() as int)) by {
        assert(forall|k: int| 0 <= k < b.flag.len() ==> b.flag[k] == pb[k]);
    }
    if a.flag.len() == b.flag.len() {
        assert(a.flag =~= b.flag) by {
            assert(forall|k: int| 0 <= k < a.flag.len() ==> a.flag[k] == pa[k]);
        }
    } else {
        assert(pa =~= b.flag.subrange(0, pa.len() as int));
    }
}

/// A table is unambiguous exactly when none of its descriptors matches the
/// spelling of another.
pub proof fn lemma_unambiguous_by_spellings(table: Seq<DescriptorModel>)
    ensures
        unambiguous(table) <==> forall|i: int, j: int|
            0 <= i < table.len() && 0 <= j < table.len() && i != j ==> !(#[trigger] table[i]).matches(
                (#[trigger] table[j]).flag,
            ),
{
    if unambiguous(table) {
        assert forall|i: int, j: int|
            0 <= i < table.len() && 0 <= j < table.len() && i != j implies !(#[trigger] table[i]).matches(
            (#[trigger] table[j]).flag,
        ) by {
            if table[i].matches(table[j].flag) {
                let token = table[j].flag;
                if i < j {
                    assert(table[i].matches(token) && table[j].matches(token));
                } else {
                    assert(table[j].matches(token) && table[i].matches(token));
                }
            }
        }
    }
    if forall|i: int, j: int|
        0 <= i < table.len() && 0 <= j < table.len() && i != j ==> !(#[trigger] table[i]).matches(
            (#[trigger] table[j]).flag,
        ) {
        assert forall|i: int, j: int, token: Seq<char>| 0 <= i < j < table.len() implies !(
        #[trigger] table[i].matches(token) && #[trigger] table[j].matches(token)) by {
            lemma_shared_token(table[i], table[j]);
            assert(!table[i].matches(table[j].flag));
            assert(!table[j].matches(table[i].flag));
        }
    }
}

/// Whether `prefix`, from position `k` on, agrees with `text` character by
/// character.
pub open spec fn agrees_from(prefix: Seq<char>, text: Seq<char>, k: nat) -> bool
    decreases prefix.len() - k,
{
    k >= prefix.len() || {
        &&& k < text.len()
        &&& prefix[k as int] == text[k as int]
        &&& agrees_from(prefix, text, k + 1)
    }
}

proof fn lemma_agrees_from(prefix: Seq<char>, text: Seq<char>, k: nat)
    requires
        k <= prefix.len(),
    ensures
        agrees_from(prefix, text, k) <==> k == prefix.len() || (prefix.len() <= text.len()
            && forall|i: int| k <= i < prefix.len() ==> prefix[i] == text[i]),
    decreases prefix.len() - k,
{
    if k < prefix.len() {
        lemma_agrees_from(prefix, text, k + 1);
    }
}

/// Agreeing character by character from the start is being a prefix.
pub proof fn lemma_agrees_is_prefix(prefix: Seq<char>, text: Seq<char>)
    ensures
        agrees_from(prefix, text, 0) <==> prefix.is_prefix_of(text),
{
    lemma_agrees_from(prefix, text, 0);
    if agrees_from(prefix, text, 0) {
        assert(prefix =~= text.subrange(0, prefix.len() as int));
    }
}

impl DescriptorModel {
    /// Matching, spelled out character by character.
    pub open spec fn spells(self, token: Seq<char>) -> bool {
        ||| token.len() == self.flag.len() && agrees_from(self.flag, token, 0)
        ||| self.fuses() && token.len() > self.flag.len() && agrees_from(
            self.flag + self.joint(),
            token,
            0,
        )
    }

    /// Matching character by character is matching.
    pub proof fn lemma_spells(self, token: Seq<char>)
        ensures
            self.spells(token) <==> self.matches(token),
    {
        lemma_agrees_is_prefix(self.flag, token);
        lemma_agrees_is_prefix(self.flag + self.joint(), token);
        if token.len() == self.flag.len() && self.flag.is_prefix_of(token) {
            assert(token.subrange(0, self.flag.len() as int) =~= token);
        }
    }
}

/// Whether `d` and each of the first `upto` descriptors of the table are
/// clear of each other: neither matches the spelling of the other.
pub open spec fn clear_of(table: Seq<DescriptorModel>, d: DescriptorModel, upto: nat) -> bool
    decreases upto,
{
    upto == 0 || {
        &&& !table[upto - 1].spells(d.flag)
        &&& !d.spells(table[upto - 1].flag)
        &&& clear_of(table, d, (upto - 1) as nat)
    }
}

/// Whether the first `upto` descriptors of the table are clear of each
/// other, pair by pair.
pub open spec fn pairwise_clear(table: Seq<DescriptorModel>, upto: nat) -> bool
    decreases upto,
{
    upto == 0 || {
        &&& clear_of(table, table[upto - 1], (upto - 1) as nat)
        &&& pairwise_clear(table, (upto - 1) as nat)
    }
}

proof fn lemma_clear_of(table: Seq<DescriptorModel>, d: DescriptorModel, upto: nat, i: int)
    requires
        clear_of(table, d, upto),
        0 <= i < upto,
    ensures
        !table[i].matches(d.flag),
        !d.matches(table[i].flag),
    decreases upto,
{
    if i < upto - 1 {
        lemma_clear_of(table, d, (upto - 1) as nat, i);
    } else {
        table[i].lemma_spells(d.flag);
        d.lemma_spells(table[i].flag);
    }
}

proof fn lemma_pairwise_clear(table: Seq<DescriptorModel>, upto: nat, i: int, j: int)
    requires
        pairwise_clear(table, upto),
        0 <= i < j < upto,
    ensures
        !table[i].matches(table[j].flag),
        !table[j].matches(table[i].flag),
    decreases upto,
{
    if j < upto - 1 {
        lemma_pairwise_clear(table, (upto - 1) as nat, i, j);
    } else {
        lemma_clear_of(table, table[j], (upto - 1) as nat, i);
    }
}

/// A table whose descriptors are clear of each other, pair by pair, is
/// unambiguous.
pub proof fn lemma_unambiguous_by_pairs(table: Seq<DescriptorModel>)
    requires
        pairwise_clear(table, table.len()),
    ensures
        unambiguous(table),
{
    assert forall|i: int, j: int|
        0 <= i < table.len() && 0 <= j < table.len() && i != j implies !(#[trigger] table[i]).matches(
        (#[trigger] table[j]).flag,
    ) by {
        if i < j {
            lemma_pairwise_clear(table, table.len(), i, j);
        } else {
            lemma_pairwise_clear(table, table.len(), j, i);
        }
    }
    lemma_unambiguous_by_spellings(table);
}

/// In an unambiguous table every spelling stands once.
pub proof fn lemma_spellings_differ(table: Seq<DescriptorModel>, i: int, j: int)
    requires
        unambiguous(table),
        0 <= i < table.len(),
        0 <= j < table.len(),
        i != j,
    ensures
        table[i].flag != table[j].flag,
{
    lemma_unambiguous_by_spellings(table);
    assert(!table[i].matches(table[j].flag));
}

} // verus!
