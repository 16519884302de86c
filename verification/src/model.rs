//! Sequence notions shared by the contracts of the broker.

use vstd::prelude::*;

verus! {

/// The contents of each string of `list`, in the same order.
pub open spec fn texts(list: Seq<String>) -> Seq<Seq<char>> {
    Seq::new(list.len(), |i: int| list[i]@)
}

/// `part` can be obtained from `whole` by leaving elements out: the elements
/// of `part` occur in `whole` in the same order, each at a place of its own.
pub open spec fn embeds<A>(part: Seq<A>, whole: Seq<A>) -> bool
    decreases whole.len(),
{
    if part.len() == 0 {
        true
    } else if whole.len() == 0 {
        false
    } else {
        ||| part.last() == whole.last() && embeds(part.drop_last(), whole.drop_last())
        ||| embeds(part, whole.drop_last())
    }
}

/// Appending the same element to both sides keeps an embedding.
pub proof fn lemma_embeds_push_both<A>(part: Seq<A>, whole: Seq<A>, item: A)
    requires
        embeds(part, whole),
    ensures
        embeds(part.push(item), whole.push(item)),
{
    assert(part.push(item).drop_last() =~= part);
    assert(whole.push(item).drop_last() =~= whole);
}

/// Appending an element to the larger side keeps an embedding.
pub proof fn lemma_embeds_push_whole<A>(part: Seq<A>, whole: Seq<A>, item: A)
    requires
        embeds(part, whole),
    ensures
        embeds(part, whole.push(item)),
{
    assert(whole.push(item).drop_last() =~= whole);
}

/// An embedded sequence is no longer than the one that holds it.
pub proof fn lemma_embeds_len<A>(part: Seq<A>, whole: Seq<A>)
    requires
        embeds(part, whole),
    ensures
        part.len() <= whole.len(),
    decreases whole.len(),
{
    if part.len() > 0 && whole.len() > 0 {
        if part.last() == whole.last() && embeds(part.drop_last(), whole.drop_last()) {
            lemma_embeds_len(part.drop_last(), whole.drop_last());
        } else {
            lemma_embeds_len(part, whole.drop_last());
        }
    }
}

/// An embedded sequence as long as the one that holds it is that sequence.
pub proof fn lemma_embeds_full<A>(part: Seq<A>, whole: Seq<A>)
    requires
        embeds(part, whole),
        part.len() == whole.len(),
    ensures
        part == whole,
    decreases whole.len(),
{
    if whole.len() > 0 {
        if part.last() == whole.last() && embeds(part.drop_last(), whole.drop_last()) {
            lemma_embeds_full(part.drop_last(), whole.drop_last());
            assert(part =~= part.drop_last().push(part.last()));
            assert(whole =~= whole.drop_last().push(whole.last()));
        } else {
            lemma_embeds_len(part, whole.drop_last());
        }
    } else {
        assert(part =~= whole);
    }
}

/// Every element of an embedded sequence is an element of the one that holds it.
pub proof fn lemma_embeds_contains<A>(part: Seq<A>, whole: Seq<A>, item: A)
    requires
        embeds(part, whole),
        part.contains(item),
    ensures
        whole.contains(item),
    decreases whole.len(),
{
    let at = choose|i: int| 0 <= i < part.len() && part[i] == item;
    if whole.len() == 0 {
    } else if part.last() == whole.last() && embeds(part.drop_last(), whole.drop_last()) {
        if at == part.len() - 1 {
            assert(whole[whole.len() - 1] == item);
        } else {
            assert(part.drop_last()[at] == item);
            lemma_embeds_contains(part.drop_last(), whole.drop_last(), item);
            let found = choose|i: int|
                0 <= i < whole.drop_last().len() && whole.drop_last()[i] == item;
            assert(whole[found] == item);
        }
    } else {
        lemma_embeds_contains(part, whole.drop_last(), item);
        let found = choose|i: int| 0 <= i < whole.drop_last().len() && whole.drop_last()[i] == item;
        assert(whole[found] == item);
    }
}

/// A sequence embedded in a suffix is embedded in the whole.
pub proof fn lemma_embeds_in_suffix<A>(part: Seq<A>, whole: Seq<A>, from: int)
    requires
        0 <= from <= whole.len(),
        embeds(part, whole.skip(from)),
    ensures
        embeds(part, whole),
    decreases whole.len() - from,
{
    let tail = whole.skip(from);
    if part.len() == 0 {
    } else {
        assert(tail.len() > 0);
        assert(tail.last() == whole.last());
        assert(tail.drop_last() =~= whole.drop_last().skip(from));
        if part.last() == tail.last() && embeds(part.drop_last(), tail.drop_last()) {
            lemma_embeds_in_suffix(part.drop_last(), whole.drop_last(), from);
        } else {
            lemma_embeds_in_suffix(part, whole.drop_last(), from);
        }
    }
}

} // verus!
